use std::collections::HashMap;

use vstd::prelude::*;

use crate::errors::LoadFilesError;
use crate::mount::{spec_closes, spec_opens, spec_release, spec_subscribe, MountSubscriptions};
use crate::status::Status;

verus! {

broadcast use vstd::std_specs::hash::group_hash_axioms;

pub struct RepoFilesBrowserLocation {
    pub repo_id: String,
    pub path: String,
    /// Key of the mount whose push channel this browser holds, once its
    /// directory has been resolved.
    pub eventstream_mount_subscription: Option<String>,
}

pub struct RepoFilesBrowser {
    pub location: Option<RepoFilesBrowserLocation>,
    pub status: Status<LoadFilesError>,
    /// Ids of the selected files.
    pub selection: Vec<String>,
}

pub struct RepoFilesBrowsersState {
    pub browsers: HashMap<u32, RepoFilesBrowser>,
    pub next_id: u32,
}

/// A freshly created browser of directory `path` of repository `repo_id`.
pub open spec fn is_fresh_browser(b: RepoFilesBrowser, repo_id: Seq<char>, path: Seq<char>) -> bool {
    &&& b.status == Status::<LoadFilesError>::Initial
    &&& b.location is Some
    &&& b.location->Some_0.repo_id@ == repo_id
    &&& b.location->Some_0.path@ == path
    &&& b.location->Some_0.eventstream_mount_subscription is None
    &&& b.selection@.len() == 0
}

/// The browsers after a listing of `id` starts.
pub open spec fn spec_browser_load_start(m: Map<u32, RepoFilesBrowser>, id: u32) -> Map<u32, RepoFilesBrowser> {
    if m.contains_key(id) && m[id].location is Some {
        m.insert(
            id,
            RepoFilesBrowser { location: m[id].location, status: m[id].status.spec_started(), selection: m[id].selection },
        )
    } else {
        m
    }
}

/// What destroying browser `id` does to the mount holder counts (`k0` to
/// `k1`) and which channel key it returns as `closed`.
pub open spec fn browser_mount_released(
    m0: Map<u32, RepoFilesBrowser>,
    k0: Map<Seq<char>, nat>,
    k1: Map<Seq<char>, nat>,
    id: u32,
    closed: Option<String>,
) -> bool {
    let held = if m0.contains_key(id) && m0[id].location is Some {
        m0[id].location->Some_0.eventstream_mount_subscription
    } else {
        None
    };
    match held {
        Some(key) => k1 == spec_release(k0, key@) && (closed is Some <==> spec_closes(k0, key@)) && (
        closed is Some ==> closed->Some_0@ == key@),
        None => k1 == k0 && closed is None,
    }
}

/// What applying the listing of browser `id` with `result` does: the
/// browsers go from `m0` to `m1`, the mount holder counts from `k0` to `k1`,
/// and `opened` is returned.
pub open spec fn browser_files_finished(
    m0: Map<u32, RepoFilesBrowser>,
    m1: Map<u32, RepoFilesBrowser>,
    k0: Map<Seq<char>, nat>,
    k1: Map<Seq<char>, nat>,
    id: u32,
    result: Result<String, LoadFilesError>,
    opened: Option<bool>,
) -> bool {
    let live = m0.contains_key(id) && m0[id].location is Some;
    if !live {
        &&& opened is None
        &&& m1 == m0
        &&& k1 == k0
    } else {
        let loc = m0[id].location->Some_0;
        let nb = m1[id];
        let nloc = nb.location->Some_0;
        &&& opened is Some
        &&& m1.dom() == m0.dom()
        &&& forall|other: u32| other != id && #[trigger] m0.contains_key(other) ==> m1[other] == m0[other]
        &&& nb.location is Some
        &&& nloc.repo_id == loc.repo_id
        &&& nloc.path == loc.path
        &&& nb.selection == m0[id].selection
        &&& match result {
            Ok(key) => {
                &&& nb.status == Status::<LoadFilesError>::Loaded
                &&& if loc.eventstream_mount_subscription is Some {
                    &&& nloc.eventstream_mount_subscription == loc.eventstream_mount_subscription
                    &&& k1 == k0
                    &&& opened == Some(false)
                } else {
                    &&& nloc.eventstream_mount_subscription == Some(key)
                    &&& k1 == spec_subscribe(k0, key@)
                    &&& opened == Some(spec_opens(k0, key@))
                }
            },
            Err(error) => {
                &&& nb.status == (Status::Error { error })
                &&& nloc.eventstream_mount_subscription == loc.eventstream_mount_subscription
                &&& k1 == k0
                &&& opened == Some(false)
            },
        }
    }
}

impl RepoFilesBrowsersState {
    /// Every live id was handed out before `next_id`.
    pub open spec fn wf(&self) -> bool {
        forall|id: u32| #[trigger] self.browsers@.contains_key(id) ==> id < self.next_id
    }

    pub fn new() -> (r: Self)
        ensures
            r.wf(),
            r.browsers@ == Map::<u32, RepoFilesBrowser>::empty(),
            r.next_id == 0,
    {
        RepoFilesBrowsersState { browsers: HashMap::new(), next_id: 0 }
    }

    /// Registers a new browser of directory `path` of repository `repo_id`
    /// and returns its id, which no earlier browser had.
    pub fn create(&mut self, repo_id: &str, path: &str) -> (id: u32)
        requires
            old(self).wf(),
            old(self).next_id < u32::MAX,
        ensures
            final(self).wf(),
            id == old(self).next_id,
            !old(self).browsers@.contains_key(id),
            final(self).next_id == id + 1,
            final(self).browsers@.dom() == old(self).browsers@.dom().insert(id),
            is_fresh_browser(final(self).browsers@[id], repo_id@, path@),
            forall|other: u32|
                other != id && #[trigger] old(self).browsers@.contains_key(other)
                    ==> final(self).browsers@[other] == old(self).browsers@[other],
    {
        let id = self.next_id;
        self.next_id = self.next_id + 1;
        let location = RepoFilesBrowserLocation {
            repo_id: repo_id.to_owned(),
            path: path.to_owned(),
            eventstream_mount_subscription: None,
        };
        self.browsers.insert(
            id,
            RepoFilesBrowser { location: Some(location), status: Status::Initial, selection: Vec::new() },
        );
        assert(self.browsers@.dom() =~= old(self).browsers@.dom().insert(id));
        id
    }

    /// Removes browser `id` and releases the mount subscription it held.
    /// Returns the key of a push channel that lost its last holder.
    pub fn destroy(&mut self, id: u32, mounts: &mut MountSubscriptions) -> (closed: Option<String>)
        requires
            old(self).wf(),
            old(mounts).wf(),
        ensures
            final(self).wf(),
            final(mounts).wf(),
            final(self).browsers@ == old(self).browsers@.remove(id),
            final(self).next_id == old(self).next_id,
            browser_mount_released(old(self).browsers@, old(mounts)@, final(mounts)@, id, closed),
    {
        match self.browsers.remove(&id) {
            None => None,
            Some(b) => match b.location {
                None => None,
                Some(loc) => match loc.eventstream_mount_subscription {
                    None => None,
                    Some(key) => {
                        if mounts.release(&key) {
                            Some(key)
                        } else {
                            None
                        }
                    },
                },
            },
        }
    }

    /// Starts (or restarts) listing browser `id`. Returns whether `id` is a
    /// live browser with a location.
    pub fn load_files_start(&mut self, id: u32) -> (started: bool)
        requires
            old(self).wf(),
        ensures
            final(self).wf(),
            final(self).next_id == old(self).next_id,
            final(self).browsers@ == spec_browser_load_start(old(self).browsers@, id),
            started == (old(self).browsers@.contains_key(id) && old(self).browsers@[id].location is Some),
    {
        match self.browsers.remove(&id) {
            None => {
                assert(self.browsers@ =~= old(self).browsers@);
                false
            },
            Some(b) => {
                let started = b.location.is_some();
                let status = if started {
                    b.status.started()
                } else {
                    b.status
                };
                self.browsers.insert(id, RepoFilesBrowser { location: b.location, status, selection: b.selection });
                proof {
                    if !started {
                        assert(self.browsers@ =~= old(self).browsers@);
                    }
                }
                started
            },
        }
    }

    /// Applies the completed listing of browser `id`; on success the browser
    /// holds a subscription to the mount `Ok` names (acquired once). Returns
    /// `None` when `id` is no longer live, else whether the caller has to
    /// open the push channel of the mount.
    pub fn load_files_finish(
        &mut self,
        id: u32,
        result: Result<String, LoadFilesError>,
        mounts: &mut MountSubscriptions,
    ) -> (opened: Option<bool>)
        requires
            old(self).wf(),
            old(mounts).wf(),
            result is Ok && old(mounts)@.contains_key(result->Ok_0@) ==> old(mounts)@[result->Ok_0@]
                < u64::MAX,
        ensures
            final(self).wf(),
            final(mounts).wf(),
            final(self).next_id == old(self).next_id,
            browser_files_finished(
                old(self).browsers@,
                final(self).browsers@,
                old(mounts)@,
                final(mounts)@,
                id,
                result,
                opened,
            ),
    {
        match self.browsers.remove(&id) {
            None => {
                assert(self.browsers@ =~= old(self).browsers@);
                None
            },
            Some(b) => match b.location {
                None => {
                    self.browsers.insert(id, RepoFilesBrowser { location: None, status: b.status, selection: b.selection });
                    assert(self.browsers@ =~= old(self).browsers@);
                    None
                },
                Some(loc) => {
                    let RepoFilesBrowserLocation { repo_id, path, eventstream_mount_subscription } = loc;
                    let (status, sub, opened) = match result {
                        Ok(key) => match eventstream_mount_subscription {
                            Some(held) => (Status::Loaded, Some(held), false),
                            None => {
                                let opened = mounts.subscribe(&key);
                                (Status::Loaded, Some(key), opened)
                            },
                        },
                        Err(error) => (Status::Error { error }, eventstream_mount_subscription, false),
                    };
                    let nloc = RepoFilesBrowserLocation { repo_id, path, eventstream_mount_subscription: sub };
                    self.browsers.insert(id, RepoFilesBrowser { location: Some(nloc), status, selection: b.selection });
                    assert(self.browsers@.dom() =~= old(self).browsers@.dom());
                    assert(forall|other: u32|
                        other != id && #[trigger] old(self).browsers@.contains_key(other)
                            ==> self.browsers@[other] == old(self).browsers@[other]);
                    Some(opened)
                },
            },
        }
    }

    /// Deselects every file of browser `id`; nothing else changes.
    pub fn clear_selection(&mut self, id: u32)
        requires
            old(self).wf(),
        ensures
            final(self).wf(),
            final(self).next_id == old(self).next_id,
            final(self).browsers@.dom() == old(self).browsers@.dom(),
            forall|other: u32|
                other != id && #[trigger] old(self).browsers@.contains_key(other)
                    ==> final(self).browsers@[other] == old(self).browsers@[other],
            old(self).browsers@.contains_key(id) ==> {
                let b = final(self).browsers@[id];
                &&& b.selection@.len() == 0
                &&& b.location == old(self).browsers@[id].location
                &&& b.status == old(self).browsers@[id].status
            },
    {
        match self.browsers.remove(&id) {
            None => {
                assert(self.browsers@ =~= old(self).browsers@);
            },
            Some(b) => {
                self.browsers.insert(id, RepoFilesBrowser { location: b.location, status: b.status, selection: Vec::new() });
                assert(self.browsers@.dom() =~= old(self).browsers@.dom());
            },
        }
    }
}

} // verus!
