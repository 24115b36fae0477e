//! Following a load request until the asset subsystem reports it complete.
//!
//! A tracker holds the handle of the asset it asked for and whether that
//! asset has been seen loaded. It is polled once per tick with the status
//! that the asset subsystem reports for the handle, and it never waits. The
//! first tick that reports the asset loaded completes the request; that
//! tick, and no other, is when the caller finishes the texture. A failed or
//! never-ending load leaves the tracker where it is: requested, for as long
//! as it takes.

use vstd::prelude::*;

verus! {

/// What the asset subsystem reports of a handle.
#[derive(Clone, Copy, Debug, PartialEq, Eq, Structural)]
pub enum LoadStatus {
    Pending,
    Loaded,
    Failed,
}

/// A tracker in specifications.
pub struct TrackerView<H> {
    pub handle: H,
    pub is_loaded: bool,
}

/// Whether a poll that reports `status` completes a request that
/// `is_loaded` says was, or was not, complete already.
pub open spec fn completes(is_loaded: bool, status: LoadStatus) -> bool {
    !is_loaded && status == LoadStatus::Loaded
}

/// Whether a request is complete once the polls `polls`, oldest first, have
/// been made on it.
pub open spec fn loaded_after(polls: Seq<LoadStatus>) -> bool
    decreases polls.len(),
{
    if polls.len() == 0 {
        false
    } else {
        loaded_after(polls.drop_last()) || polls.last() == LoadStatus::Loaded
    }
}

/// Whether poll `i` of `polls` is the one that completes the request.
pub open spec fn completes_at(polls: Seq<LoadStatus>, i: int) -> bool {
    completes(loaded_after(polls.take(i)), polls[i])
}

/// One load request and its progress.
pub struct LoadTracker<H> {
    handle: H,
    is_loaded: bool,
}

impl<H> View for LoadTracker<H> {
    type V = TrackerView<H>;

    closed spec fn view(&self) -> TrackerView<H> {
        TrackerView { handle: self.handle, is_loaded: self.is_loaded }
    }
}

impl<H: Copy> LoadTracker<H> {
    /// A tracker for a request just issued, which gave `handle`.
    pub fn request(handle: H) -> (r: LoadTracker<H>)
        ensures
            r@ == (TrackerView { handle, is_loaded: false }),
    {
        LoadTracker { handle, is_loaded: false }
    }

    /// Starts over with a new request, which gave `handle`. The request
    /// followed so far is abandoned, complete or not.
    pub fn replace(&mut self, handle: H)
        ensures
            final(self)@ == (TrackerView { handle, is_loaded: false }),
        no_unwind
    {
        self.handle = handle;
        self.is_loaded = false;
    }

    /// One poll: `status` is what the asset subsystem reports of the
    /// tracker's handle now. Returns whether this poll completes the
    /// request, which the first report of `Loaded` does.
    pub fn observe(&mut self, status: LoadStatus) -> (completed: bool)
        ensures
            completed == completes(old(self)@.is_loaded, status),
            final(self)@.is_loaded == (old(self)@.is_loaded || status == LoadStatus::Loaded),
            final(self)@.handle == old(self)@.handle,
        no_unwind
    {
        let completed = !self.is_loaded && status == LoadStatus::Loaded;
        if completed {
            self.is_loaded = true;
        }
        completed
    }

    /// The handle of the asset asked for.
    pub fn handle(&self) -> (h: H)
        ensures
            h == self@.handle,
    {
        self.handle
    }

    /// Whether the asset has been seen loaded.
    pub fn is_loaded(&self) -> (r: bool)
        ensures
            r == self@.is_loaded,
    {
        self.is_loaded
    }
}

/// The two environment maps of a scene, diffuse and specular. Each is
/// loaded once and followed on its own; the scene shows a "loading"
/// indicator until both are there.
pub struct EnvironmentMaps<H> {
    diffuse: LoadTracker<H>,
    specular: LoadTracker<H>,
}

/// A pair of environment maps in specifications.
pub struct EnvironmentMapsView<H> {
    pub diffuse: TrackerView<H>,
    pub specular: TrackerView<H>,
}

impl<H> EnvironmentMapsView<H> {
    /// Whether both maps have been seen loaded.
    pub open spec fn ready(self) -> bool {
        self.diffuse.is_loaded && self.specular.is_loaded
    }
}

impl<H> View for EnvironmentMaps<H> {
    type V = EnvironmentMapsView<H>;

    closed spec fn view(&self) -> EnvironmentMapsView<H> {
        EnvironmentMapsView { diffuse: self.diffuse@, specular: self.specular@ }
    }
}

impl<H: Copy> EnvironmentMaps<H> {
    /// Trackers for the two requests just issued.
    pub fn request(diffuse: H, specular: H) -> (r: EnvironmentMaps<H>)
        ensures
            r@.diffuse == (TrackerView { handle: diffuse, is_loaded: false }),
            r@.specular == (TrackerView { handle: specular, is_loaded: false }),
    {
        EnvironmentMaps {
            diffuse: LoadTracker::request(diffuse),
            specular: LoadTracker::request(specular),
        }
    }

    /// One poll of both maps. Returns whether this is the poll that finds
    /// the pair complete, which is when the "loading" indicator goes away.
    pub fn observe(&mut self, diffuse: LoadStatus, specular: LoadStatus) -> (finished: bool)
        ensures
            final(self)@.diffuse.handle == old(self)@.diffuse.handle,
            final(self)@.specular.handle == old(self)@.specular.handle,
            final(self)@.diffuse.is_loaded == (old(self)@.diffuse.is_loaded || diffuse
                == LoadStatus::Loaded),
            final(self)@.specular.is_loaded == (old(self)@.specular.is_loaded || specular
                == LoadStatus::Loaded),
            finished == (final(self)@.ready() && !old(self)@.ready()),
    {
        let was_ready = self.diffuse.is_loaded() && self.specular.is_loaded();
        self.diffuse.observe(diffuse);
        self.specular.observe(specular);
        let is_ready = self.diffuse.is_loaded() && self.specular.is_loaded();
        is_ready && !was_ready
    }

    /// The handle of the diffuse map.
    pub fn diffuse(&self) -> (h: H)
        ensures
            h == self@.diffuse.handle,
    {
        self.diffuse.handle()
    }

    /// The handle of the specular map.
    pub fn specular(&self) -> (h: H)
        ensures
            h == self@.specular.handle,
    {
        self.specular.handle()
    }

    /// Whether both maps have been seen loaded.
    pub fn is_ready(&self) -> (r: bool)
        ensures
            r == self@.ready(),
    {
        self.diffuse.is_loaded() && self.specular.is_loaded()
    }
}

/// A request is complete after some polls exactly when one of them reported
/// the asset loaded.
pub proof fn lemma_loaded_after(polls: Seq<LoadStatus>)
    ensures
        loaded_after(polls) <==> exists|j: int|
            0 <= j < polls.len() && #[trigger] polls[j] == LoadStatus::Loaded,
    decreases polls.len(),
{
    if polls.len() > 0 {
        let front = polls.drop_last();
        lemma_loaded_after(front);
        if loaded_after(front) {
            let j = choose|j: int| 0 <= j < front.len() && #[trigger] front[j] == LoadStatus::Loaded;
            assert(polls[j] == LoadStatus::Loaded);
        }
        if exists|j: int| 0 <= j < polls.len() && #[trigger] polls[j] == LoadStatus::Loaded {
            let j = choose|j: int| 0 <= j < polls.len() && #[trigger] polls[j] == LoadStatus::Loaded;
            if j < front.len() {
                assert(front[j] == LoadStatus::Loaded);
            }
        }
    }
}

/// The poll that completes a request is the first one that reports the
/// asset loaded, so there is at most one such poll: later reports, of
/// whatever status, complete nothing.
pub proof fn lemma_completes_on_first_loaded(polls: Seq<LoadStatus>, i: int)
    requires
        0 <= i < polls.len(),
    ensures
        completes_at(polls, i) <==> polls[i] == LoadStatus::Loaded && forall|j: int|
            0 <= j < i ==> #[trigger] polls[j] != LoadStatus::Loaded,
{
    let front = polls.take(i);
    lemma_loaded_after(front);
    if loaded_after(front) {
        let j = choose|j: int| 0 <= j < front.len() && #[trigger] front[j] == LoadStatus::Loaded;
        assert(polls[j] == LoadStatus::Loaded);
    }
    if exists|j: int| 0 <= j < i && #[trigger] polls[j] == LoadStatus::Loaded {
        let j = choose|j: int| 0 <= j < i && #[trigger] polls[j] == LoadStatus::Loaded;
        assert(front[j] == LoadStatus::Loaded);
    }
}

} // verus!
