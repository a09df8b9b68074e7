//! The render hardware interface: what the framework asks of a backend.

use crate::error::Error;
use vstd::prelude::*;

verus! {

/// `id` is the smallest identity that no live window has: it is free, and
/// every smaller one is taken.
pub open spec fn is_first_gap(live: Set<usize>, id: usize) -> bool {
    &&& !live.contains(id)
    &&& forall|k: usize| k < id ==> live.contains(k)
}

/// There is one first gap at most: which identity a window gets when it
/// asks for none is settled by the live identities alone.
pub proof fn lemma_first_gap_unique(live: Set<usize>, a: usize, b: usize)
    requires
        is_first_gap(live, a),
        is_first_gap(live, b),
    ensures
        a == b,
{
    if a < b {
        assert(live.contains(a));
    }
    if b < a {
        assert(live.contains(b));
    }
}

/// The first gap, read off the live identities in ascending order: it is the
/// first position whose identity is not the position itself, and the number
/// of identities where there is no such position.
pub proof fn lemma_first_gap_of_ascending(ids: Seq<usize>, gap: usize)
    requires
        forall|i: int, j: int| 0 <= i < j < ids.len() ==> ids[i] < ids[j],
        gap <= ids.len(),
        forall|i: int| 0 <= i < gap ==> ids[i] == i,
        gap < ids.len() ==> ids[gap as int] != gap,
    ensures
        is_first_gap(ids.to_set(), gap),
{
    assert forall|k: usize| k < gap implies ids.to_set().contains(k) by {
        assert(ids[k as int] == k);
    }
    if ids.to_set().contains(gap) {
        let j = choose|j: int| 0 <= j < ids.len() && ids[j] == gap;
        if gap > 0 {
            assert(ids[gap - 1] == gap - 1);
        }
        if j > gap {
            assert(ids[gap as int] < ids[j]);
        }
    }
}

/// A new window may get `id` when `requested` was asked for: the requested
/// identity itself if it is free, and the first gap if none was requested.
pub open spec fn may_assign(live: Set<usize>, requested: Option<usize>, id: usize) -> bool {
    match requested {
        Some(wanted) => id == wanted && !live.contains(wanted),
        None => is_first_gap(live, id),
    }
}

/// The run loop ends once no window is left, or once a primary window was
/// named and is gone.
pub open spec fn termination_due(live: Set<usize>, primary: Option<usize>) -> bool {
    ||| forall|id: usize| !live.contains(id)
    ||| primary matches Some(p) && !live.contains(p)
}

/// What the framework can tell of a backend.
#[verifier::ext_equal]
pub struct BackendModel {
    /// The live windows by their identities, each with the mark that the
    /// toolkit has reported it closed: the next frame start takes the marked
    /// ones away.
    pub windows: Map<usize, bool>,
    /// The window whose loss ends the run loop, once one was named.
    pub primary: Option<usize>,
    /// The termination flag.
    pub terminating: bool,
}

impl BackendModel {
    /// The identities of the live windows.
    pub open spec fn live(self) -> Set<usize> {
        self.windows.dom()
    }

    /// The live windows that are marked as closed.
    pub open spec fn closing(self) -> Set<usize> {
        Set::new(|id: usize| self.windows.dom().contains(id) && self.windows[id])
    }

    /// The live windows that are not marked: they outlive the next frame
    /// start.
    pub open spec fn survivors(self) -> Set<usize> {
        Set::new(|id: usize| self.windows.dom().contains(id) && !self.windows[id])
    }

    /// Nothing is live, no primary window is named, the flag is down.
    pub open spec fn fresh() -> BackendModel {
        BackendModel { windows: Map::empty(), primary: None, terminating: false }
    }

    /// A window `id` has joined, unmarked.
    pub open spec fn created(self, id: usize) -> BackendModel {
        BackendModel { windows: self.windows.insert(id, false), ..self }
    }

    /// The window `id` has left, if it was there.
    pub open spec fn destroyed(self, id: usize) -> BackendModel {
        BackendModel { windows: self.windows.remove(id), ..self }
    }

    /// All the windows in `ids` have left.
    pub open spec fn without(self, ids: Set<usize>) -> BackendModel {
        BackendModel { windows: self.windows.remove_keys(ids), ..self }
    }

    /// The windows in `ids` have left one after the other, first to last.
    pub open spec fn destroyed_all(self, ids: Seq<usize>) -> BackendModel
        decreases ids.len(),
    {
        if ids.len() == 0 {
            self
        } else {
            self.destroyed_all(ids.drop_last()).destroyed(ids.last())
        }
    }

    /// `id` has been named the primary window.
    pub open spec fn with_master(self, id: usize) -> BackendModel {
        BackendModel { primary: Some(id), ..self }
    }

    /// `next` can be what a frame start makes of `self`: the marked windows
    /// are reaped, the primary window stays, and the flag goes up, for good,
    /// if the termination condition holds of what is left. Which windows the
    /// toolkit reports closed during the poll is open.
    pub open spec fn frame_started(self, next: BackendModel) -> bool {
        &&& next.live() == self.survivors()
        &&& next.primary == self.primary
        &&& next.terminating == (self.terminating || termination_due(next.live(), next.primary))
    }
}

/// To destroy windows one after the other is to take them all away: neither
/// the order nor a repetition shows in what is left.
pub proof fn lemma_destroyed_all_is_without(backend: BackendModel, ids: Seq<usize>)
    ensures
        backend.destroyed_all(ids) == backend.without(ids.to_set()),
    decreases ids.len(),
{
    if ids.len() == 0 {
        assert(backend.without(ids.to_set()) =~= backend);
    } else {
        lemma_destroyed_all_is_without(backend, ids.drop_last());
        ids.drop_last().lemma_push_to_set_commute(ids.last());
        assert(ids.drop_last().push(ids.last()) =~= ids);
        assert(backend.without(ids.drop_last().to_set()).destroyed(ids.last())
            =~= backend.without(ids.to_set()));
    }
}

/// A rendering backend: it creates and destroys windows, brackets each frame,
/// and says when the application is over.
///
/// What the framework needs to know of a backend is in its model, `view`.
/// What else a call does, to native windows or to a device, is the backend's
/// own affair: a backend may say what it is, in the relations below, and the
/// framework then says of its own functions which of these calls they make
/// and in which order. A backend that leaves a relation as it stands here
/// says nothing more of that call than the model does.
pub trait RHI: Sized {
    /// What the framework can tell of the backend.
    spec fn view(&self) -> BackendModel;

    /// `later` and `r` can be what `create_window` with these arguments makes
    /// of `self`.
    open spec fn window_created(
        &self,
        title: Seq<char>,
        width: u32,
        height: u32,
        id: Option<usize>,
        later: &Self,
        r: Result<usize, Error>,
    ) -> bool {
        true
    }

    /// `later` can be what `destroy_window` with `id` makes of `self`.
    open spec fn window_destroyed(&self, id: usize, later: &Self) -> bool {
        true
    }

    /// `later` can be what `start_frame` makes of `self`.
    open spec fn frame_begun(&self, later: &Self) -> bool {
        true
    }

    /// `later` can be what `end_frame` makes of `self`.
    open spec fn frame_ended(&self, later: &Self) -> bool {
        true
    }

    /// `later` can be what `assign_master` with `id` makes of `self`.
    open spec fn master_assigned(&self, id: usize, later: &Self) -> bool {
        true
    }

    /// Creates a window and gives its identity: `id` if one is asked for, the
    /// first gap among the live identities if not. An identity that is live is
    /// turned down with `DuplicateIdentity`; whether the native window comes up
    /// is the backend's to say. A failure changes nothing.
    fn create_window(&mut self, title: &str, width: u32, height: u32, id: Option<usize>) -> (r:
        Result<usize, Error>)
        ensures
            old(self).window_created(title@, width, height, id, final(self), r),
            match r {
                Ok(n) => {
                    &&& may_assign(old(self)@.live(), id, n)
                    &&& final(self)@ == old(self)@.created(n)
                },
                Err(e) => {
                    &&& final(self)@ == old(self)@
                    &&& e == Error::DuplicateIdentity <==> (id matches Some(wanted) && old(
                        self,
                    )@.live().contains(wanted))
                },
            },
            (id matches Some(wanted) && old(self)@.live().contains(wanted)) ==> r is Err,
    ;

    /// Removes the window `id` and lets go of what it held. Nothing happens
    /// if no such window is live.
    fn destroy_window(&mut self, id: usize)
        ensures
            old(self).window_destroyed(id, final(self)),
            final(self)@ == old(self)@.destroyed(id),
            !old(self)@.live().contains(id) ==> final(self)@ == old(self)@,
    ;

    /// Reaps the windows that were closed, looks at the termination condition
    /// and, unless it holds, polls the toolkit for events.
    fn start_frame(&mut self)
        ensures
            old(self).frame_begun(final(self)),
            old(self)@.frame_started(final(self)@),
    ;

    /// Presents every live window, unless the flag is up. No window comes or
    /// goes.
    fn end_frame(&mut self)
        ensures
            old(self).frame_ended(final(self)),
            final(self)@ == old(self)@,
    ;

    /// The termination flag.
    fn should_close(&self) -> (flag: bool)
        ensures
            flag == self@.terminating,
    ;

    /// Names `id` the primary window. Whether such a window is live is not
    /// looked at here: each frame start looks again.
    fn assign_master(&mut self, id: usize)
        ensures
            old(self).master_assigned(id, final(self)),
            final(self)@ == old(self)@.with_master(id),
    ;
}

} // verus!
