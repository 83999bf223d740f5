use std::collections::HashMap;

use vstd::prelude::*;
use vstd::utf8::encode_utf8;

use crate::errors::{GetFilesReaderError, LoadFilesError};
use crate::mount::{spec_opens, spec_release, spec_closes, spec_subscribe, MountSubscriptions};
use crate::status::Status;

verus! {

broadcast use vstd::std_specs::hash::group_hash_axioms;

/// What a view renders for one file details instance.
pub struct RepoFilesDetailsInfo<'a> {
    pub repo_id: Option<&'a str>,
    pub path: Option<&'a str>,
    pub status: Status<LoadFilesError>,
    pub content_status: Status<GetFilesReaderError>,
}

fn copy_load_status(s: &Status<LoadFilesError>) -> (r: Status<LoadFilesError>)
    ensures
        r == *s,
{
    match s {
        Status::Initial => Status::Initial,
        Status::Loading => Status::Loading,
        Status::Loaded => Status::Loaded,
        Status::Reloading => Status::Reloading,
        Status::Error { error } => Status::Error { error: *error },
    }
}

fn copy_content_status(s: &Status<GetFilesReaderError>) -> (r: Status<GetFilesReaderError>)
    ensures
        r == *s,
{
    match s {
        Status::Initial => Status::Initial,
        Status::Loading => Status::Loading,
        Status::Loaded => Status::Loaded,
        Status::Reloading => Status::Reloading,
        Status::Error { error } => Status::Error { error: *error },
    }
}

pub struct RepoFilesDetailsContent {
    pub status: Status<GetFilesReaderError>,
    pub bytes: Option<Vec<u8>>,
    pub version: u32,
}

pub struct RepoFilesDetailsLocation {
    pub repo_id: String,
    pub path: String,
    /// Key of the mount whose push channel this instance holds, once its
    /// file has been resolved.
    pub eventstream_mount_subscription: Option<String>,
    pub content: RepoFilesDetailsContent,
}

pub struct RepoFilesDetails {
    pub location: Option<RepoFilesDetailsLocation>,
    pub status: Status<LoadFilesError>,
}

pub struct RepoFilesDetailsState {
    pub details: HashMap<u32, RepoFilesDetails>,
    pub next_id: u32,
}

/// The content that a new content load leaves behind when it starts.
pub open spec fn content_started(c: RepoFilesDetailsContent) -> RepoFilesDetailsContent {
    RepoFilesDetailsContent {
        status: c.status.spec_started(),
        bytes: c.bytes,
        version: (c.version + 1) as u32,
    }
}

/// The content after the load started as `version` completed with `result`:
/// applied only when no later load has started since, dropped otherwise.
pub open spec fn content_finished(
    c: RepoFilesDetailsContent,
    version: u32,
    result: Result<Vec<u8>, GetFilesReaderError>,
) -> RepoFilesDetailsContent {
    if c.version != version {
        c
    } else {
        match result {
            Ok(bytes) => RepoFilesDetailsContent {
                status: Status::Loaded,
                bytes: Some(bytes),
                version,
            },
            Err(error) => RepoFilesDetailsContent {
                status: Status::Error { error },
                bytes: None,
                version,
            },
        }
    }
}

pub open spec fn with_content(d: RepoFilesDetails, c: RepoFilesDetailsContent) -> RepoFilesDetails {
    let loc = d.location->Some_0;
    RepoFilesDetails {
        location: Some(
            RepoFilesDetailsLocation {
                repo_id: loc.repo_id,
                path: loc.path,
                eventstream_mount_subscription: loc.eventstream_mount_subscription,
                content: c,
            },
        ),
        status: d.status,
    }
}

/// Content bytes are present exactly while a loaded value is shown.
pub open spec fn content_wf(c: RepoFilesDetailsContent) -> bool {
    c.bytes is Some <==> c.status.spec_has_value()
}

pub open spec fn details_wf(d: RepoFilesDetails) -> bool {
    d.location is Some ==> content_wf(d.location->Some_0.content)
}

/// Whether an instance can take a new content load.
pub open spec fn can_start_content(m: Map<u32, RepoFilesDetails>, id: u32) -> bool {
    m.contains_key(id) && m[id].location is Some && m[id].location->Some_0.content.version
        < u32::MAX
}

/// The instances after a content load of `id` starts.
pub open spec fn spec_content_start(m: Map<u32, RepoFilesDetails>, id: u32) -> Map<
    u32,
    RepoFilesDetails,
> {
    if can_start_content(m, id) {
        m.insert(id, with_content(m[id], content_started(m[id].location->Some_0.content)))
    } else {
        m
    }
}

/// The instances after the content load of `id` started as `version`
/// completes with `result`. A destroyed instance is left alone.
pub open spec fn spec_content_finish(
    m: Map<u32, RepoFilesDetails>,
    id: u32,
    version: u32,
    result: Result<Vec<u8>, GetFilesReaderError>,
) -> Map<u32, RepoFilesDetails> {
    if m.contains_key(id) && m[id].location is Some {
        m.insert(
            id,
            with_content(m[id], content_finished(m[id].location->Some_0.content, version, result)),
        )
    } else {
        m
    }
}

/// A freshly created instance showing `path` of repository `repo_id`.
pub open spec fn is_fresh(d: RepoFilesDetails, repo_id: Seq<char>, path: Seq<char>) -> bool {
    &&& d.status == Status::<LoadFilesError>::Initial
    &&& d.location is Some
    &&& d.location->Some_0.repo_id@ == repo_id
    &&& d.location->Some_0.path@ == path
    &&& d.location->Some_0.eventstream_mount_subscription is None
    &&& d.location->Some_0.content.status == Status::<GetFilesReaderError>::Initial
    &&& d.location->Some_0.content.bytes is None
    &&& d.location->Some_0.content.version == 0
}

/// Whether a push change under `changed` touches the file at `path` (both as
/// UTF-8 bytes): `changed` is `path` itself or one of its ancestor
/// directories.
pub open spec fn is_affected(changed: Seq<u8>, path: Seq<u8>) -> bool {
    &&& changed.len() <= path.len()
    &&& path.subrange(0, changed.len() as int) == changed
    &&& (changed.len() == path.len() || (changed.len() > 0 && changed.last() == 47u8)
        || path[changed.len() as int] == 47u8)
}

/// Whether path `changed` of the mount `key` touches live instance `id`.
pub open spec fn push_affects(
    m: Map<u32, RepoFilesDetails>,
    id: u32,
    key: Seq<char>,
    changed: Seq<char>,
) -> bool {
    &&& m.contains_key(id)
    &&& m[id].location is Some
    &&& m[id].location->Some_0.eventstream_mount_subscription is Some
    &&& m[id].location->Some_0.eventstream_mount_subscription->Some_0@ == key
    &&& is_affected(encode_utf8(changed), encode_utf8(m[id].location->Some_0.path@))
}

/// The instances after a resolution of `id` starts.
pub open spec fn spec_files_start(m: Map<u32, RepoFilesDetails>, id: u32) -> Map<
    u32,
    RepoFilesDetails,
> {
    if m.contains_key(id) && m[id].location is Some {
        m.insert(id, RepoFilesDetails { location: m[id].location, status: m[id].status.spec_started() })
    } else {
        m
    }
}

/// What a push change asks the caller to run for one instance.
pub struct PushReload {
    /// A resolution was started (see `load_files_start`).
    pub load_files: bool,
    /// A content load was started as this version (see `load_content_start`).
    pub content_version: Option<u32>,
}

/// Whether `changed` touches `path`, compared as UTF-8 bytes.
pub fn path_affected(changed: &str, path: &str) -> (r: bool)
    ensures
        r == is_affected(encode_utf8(changed@), encode_utf8(path@)),
{
    let c = changed.as_bytes();
    let p = path.as_bytes();
    assert(c@ == encode_utf8(changed@));
    assert(p@ == encode_utf8(path@));
    if c.len() > p.len() {
        return false;
    }
    let mut i: usize = 0;
    while i < c.len()
        invariant
            c@ == encode_utf8(changed@),
            p@ == encode_utf8(path@),
            c.len() <= p.len(),
            0 <= i <= c.len(),
            forall|k: int| 0 <= k < i ==> c@[k] == p@[k],
        decreases c.len() - i,
    {
        if c[i] != p[i] {
            assert(p@.subrange(0, c@.len() as int)[i as int] != c@[i as int]);
            assert(p@.subrange(0, c@.len() as int) != c@);
            return false;
        }
        i = i + 1;
    }
    assert(p@.subrange(0, c@.len() as int) =~= c@);
    c.len() == p.len() || (c.len() > 0 && c[c.len() - 1] == 47u8) || p[c.len()] == 47u8
}

/// What applying the resolution of `id` with `result` does: the instances go
/// from `m0` to `m1`, the mount holder counts from `k0` to `k1`, and `opened`
/// is returned.
pub open spec fn files_finished(
    m0: Map<u32, RepoFilesDetails>,
    m1: Map<u32, RepoFilesDetails>,
    k0: Map<Seq<char>, nat>,
    k1: Map<Seq<char>, nat>,
    id: u32,
    result: Result<String, LoadFilesError>,
    opened: Option<bool>,
) -> bool {
    let live = m0.contains_key(id) && m0[id].location is Some;
    if !live {
        &&& opened is None
        &&& m1 == m0
        &&& k1 == k0
    } else {
        let d = m0[id];
        let loc = d.location->Some_0;
        let nd = m1[id];
        let nloc = nd.location->Some_0;
        &&& opened is Some
        &&& m1.dom() == m0.dom()
        &&& forall|other: u32|
            other != id && #[trigger] m0.contains_key(other)
                ==> m1[other] == m0[other]
        &&& nd.location is Some
        &&& nloc.repo_id == loc.repo_id
        &&& nloc.path == loc.path
        &&& nloc.content == loc.content
        &&& match result {
            Ok(key) => {
                &&& nd.status == Status::<LoadFilesError>::Loaded
                &&& if loc.eventstream_mount_subscription is Some {
                    &&& nloc.eventstream_mount_subscription == loc.eventstream_mount_subscription
                    &&& k1 == k0
                    &&& opened == Some(false)
                } else {
                    &&& nloc.eventstream_mount_subscription == Some(key)
                    &&& k1 == spec_subscribe(k0, key@)
                    &&& opened == Some(spec_opens(k0, key@))
                }
            },
            Err(error) => {
                &&& nd.status == (Status::Error { error })
                &&& nloc.eventstream_mount_subscription == loc.eventstream_mount_subscription
                &&& k1 == k0
                &&& opened == Some(false)
            },
        }
    }
}

/// What destroying `id` does to the mount holder counts (`k0` to `k1`) and
/// which channel key it returns as `closed`.
pub open spec fn mount_released(
    m0: Map<u32, RepoFilesDetails>,
    k0: Map<Seq<char>, nat>,
    k1: Map<Seq<char>, nat>,
    id: u32,
    closed: Option<String>,
) -> bool {
    let held = if m0.contains_key(id) && m0[id].location is Some {
        m0[id].location->Some_0.eventstream_mount_subscription
    } else {
        None
    };
    match held {
        Some(key) => k1 == spec_release(k0, key@) && (closed is Some <==> spec_closes(k0, key@)) && (
        closed is Some ==> closed->Some_0@ == key@),
        None => k1 == k0 && closed is None,
    }
}

impl RepoFilesDetailsState {
    /// Every live id was handed out before `next_id`, and every instance's
    /// content is consistent.
    pub open spec fn wf(&self) -> bool {
        &&& forall|id: u32| #[trigger] self.details@.contains_key(id) ==> id < self.next_id
        &&& forall|id: u32| #[trigger] self.details@.contains_key(id) ==> details_wf(self.details@[id])
    }

    pub fn new() -> (r: Self)
        ensures
            r.wf(),
            r.details@ == Map::<u32, RepoFilesDetails>::empty(),
            r.next_id == 0,
    {
        RepoFilesDetailsState { details: HashMap::new(), next_id: 0 }
    }

    /// Registers a new instance for `path` of repository `repo_id` and
    /// returns its id, which no earlier instance had.
    pub fn create(&mut self, repo_id: &str, path: &str) -> (id: u32)
        requires
            old(self).wf(),
            old(self).next_id < u32::MAX,
        ensures
            final(self).wf(),
            id == old(self).next_id,
            !old(self).details@.contains_key(id),
            final(self).next_id == id + 1,
            final(self).details@.dom() == old(self).details@.dom().insert(id),
            is_fresh(final(self).details@[id], repo_id@, path@),
            forall|other: u32|
                other != id && #[trigger] old(self).details@.contains_key(other)
                    ==> final(self).details@[other] == old(self).details@[other],
    {
        let id = self.next_id;
        self.next_id = self.next_id + 1;
        let content = RepoFilesDetailsContent { status: Status::Initial, bytes: None, version: 0 };
        let location = RepoFilesDetailsLocation {
            repo_id: repo_id.to_owned(),
            path: path.to_owned(),
            eventstream_mount_subscription: None,
            content,
        };
        self.details.insert(id, RepoFilesDetails { location: Some(location), status: Status::Initial });
        assert(self.details@.dom() =~= old(self).details@.dom().insert(id));
        id
    }

    /// Removes instance `id` and releases the mount subscription it held.
    /// Returns the key of a push channel that lost its last holder and has
    /// to be closed.
    pub fn destroy(&mut self, id: u32, mounts: &mut MountSubscriptions) -> (closed: Option<String>)
        requires
            old(self).wf(),
            old(mounts).wf(),
        ensures
            final(self).wf(),
            final(mounts).wf(),
            final(self).details@ == old(self).details@.remove(id),
            final(self).next_id == old(self).next_id,
            mount_released(old(self).details@, old(mounts)@, final(mounts)@, id, closed),
    {
        match self.details.remove(&id) {
            None => None,
            Some(d) => {
                match d.location {
                    None => None,
                    Some(loc) => match loc.eventstream_mount_subscription {
                        None => None,
                        Some(key) => {
                            if mounts.release(&key) {
                                Some(key)
                            } else {
                                None
                            }
                        },
                    },
                }
            },
        }
    }

    /// Starts (or restarts) resolving instance `id`: its status enters
    /// `Loading`, or `Reloading` when it was loaded. Returns whether `id` is a
    /// live instance with a location to resolve.
    pub fn load_files_start(&mut self, id: u32) -> (started: bool)
        requires
            old(self).wf(),
        ensures
            final(self).wf(),
            final(self).next_id == old(self).next_id,
            started == (old(self).details@.contains_key(id) && old(self).details@[id].location is Some),
            final(self).details@ == spec_files_start(old(self).details@, id),
    {
        match self.details.remove(&id) {
            None => false,
            Some(d) => {
                let started = d.location.is_some();
                let status = if started {
                    d.status.started()
                } else {
                    d.status
                };
                self.details.insert(id, RepoFilesDetails { location: d.location, status });
                proof {
                    if !started {
                        assert(self.details@ =~= old(self).details@);
                    }
                }
                started
            },
        }
    }

    /// Applies the completed resolution of instance `id`. On success the
    /// instance is loaded and holds a subscription to the mount `Ok` names
    /// (acquired once); on failure the error is stored. Returns `None` when
    /// `id` is no longer live (the result is dropped), else whether the
    /// caller has to open the push channel of the mount.
    pub fn load_files_finish(
        &mut self,
        id: u32,
        result: Result<String, LoadFilesError>,
        mounts: &mut MountSubscriptions,
    ) -> (opened: Option<bool>)
        requires
            old(self).wf(),
            old(mounts).wf(),
            result is Ok && old(mounts)@.contains_key(result->Ok_0@) ==> old(mounts)@[result->Ok_0@]
                < u64::MAX,
        ensures
            final(self).wf(),
            final(mounts).wf(),
            final(self).next_id == old(self).next_id,
            files_finished(
                old(self).details@,
                final(self).details@,
                old(mounts)@,
                final(mounts)@,
                id,
                result,
                opened,
            ),
    {
        match self.details.remove(&id) {
            None => {
                assert(self.details@ =~= old(self).details@);
                None
            },
            Some(d) => {
                match d.location {
                    None => {
                        self.details.insert(id, RepoFilesDetails { location: None, status: d.status });
                        assert(self.details@ =~= old(self).details@);
                        None
                    },
                    Some(loc) => {
                        let RepoFilesDetailsLocation { repo_id, path, eventstream_mount_subscription, content } = loc;
                        let (status, sub, opened) = match result {
                            Ok(key) => match eventstream_mount_subscription {
                                Some(held) => (Status::Loaded, Some(held), false),
                                None => {
                                    let opened = mounts.subscribe(&key);
                                    (Status::Loaded, Some(key), opened)
                                },
                            },
                            Err(error) => (Status::Error { error }, eventstream_mount_subscription, false),
                        };
                        let nloc = RepoFilesDetailsLocation {
                            repo_id,
                            path,
                            eventstream_mount_subscription: sub,
                            content,
                        };
                        self.details.insert(id, RepoFilesDetails { location: Some(nloc), status });
                        assert(self.details@.dom() =~= old(self).details@.dom());
                        assert(forall|other: u32|
                            other != id && #[trigger] old(self).details@.contains_key(other)
                                ==> self.details@[other] == old(self).details@[other]);
                        Some(opened)
                    },
                }
            },
        }
    }

    /// Starts a content load of instance `id`: its version goes up by one and
    /// its content status enters `Loading`, or `Reloading` when content was
    /// loaded. Returns the new version, which the completion has to carry, or
    /// `None` when `id` is not live, has no location, or its version counter
    /// is exhausted.
    pub fn load_content_start(&mut self, id: u32) -> (version: Option<u32>)
        requires
            old(self).wf(),
        ensures
            final(self).wf(),
            final(self).next_id == old(self).next_id,
            final(self).details@ == spec_content_start(old(self).details@, id),
            version is Some <==> can_start_content(old(self).details@, id),
            version is Some ==> version->Some_0 == old(self).details@[id].location->Some_0.content.version + 1,
    {
        match self.details.remove(&id) {
            None => None,
            Some(d) => {
                match d.location {
                    None => {
                        self.details.insert(id, RepoFilesDetails { location: None, status: d.status });
                        assert(self.details@ =~= old(self).details@);
                        None
                    },
                    Some(loc) => {
                        let RepoFilesDetailsLocation { repo_id, path, eventstream_mount_subscription, content } = loc;
                        let (content, version) = if content.version < u32::MAX {
                            let v = content.version + 1;
                            let status = content.status.started();
                            (RepoFilesDetailsContent { status, bytes: content.bytes, version: v }, Some(v))
                        } else {
                            (content, None)
                        };
                        let nloc = RepoFilesDetailsLocation {
                            repo_id,
                            path,
                            eventstream_mount_subscription,
                            content,
                        };
                        self.details.insert(id, RepoFilesDetails { location: Some(nloc), status: d.status });
                        proof {
                            if version is None {
                                assert(self.details@ =~= old(self).details@);
                            }
                        }
                        version
                    },
                }
            },
        }
    }

    /// Applies the completed content load of instance `id` that was started
    /// as `version`. The result is dropped when the instance is gone or a
    /// later load has started since. Returns whether it was applied.
    pub fn load_content_finish(
        &mut self,
        id: u32,
        version: u32,
        result: Result<Vec<u8>, GetFilesReaderError>,
    ) -> (applied: bool)
        requires
            old(self).wf(),
        ensures
            final(self).wf(),
            final(self).next_id == old(self).next_id,
            final(self).details@ == spec_content_finish(old(self).details@, id, version, result),
            applied == (old(self).details@.contains_key(id) && old(self).details@[id].location is Some
                && old(self).details@[id].location->Some_0.content.version == version),
    {
        match self.details.remove(&id) {
            None => false,
            Some(d) => {
                match d.location {
                    None => {
                        self.details.insert(id, RepoFilesDetails { location: None, status: d.status });
                        assert(self.details@ =~= old(self).details@);
                        false
                    },
                    Some(loc) => {
                        let RepoFilesDetailsLocation { repo_id, path, eventstream_mount_subscription, content } = loc;
                        let applied = content.version == version;
                        let content = if applied {
                            match result {
                                Ok(bytes) => RepoFilesDetailsContent { status: Status::Loaded, bytes: Some(bytes), version },
                                Err(error) => RepoFilesDetailsContent { status: Status::Error { error }, bytes: None, version },
                            }
                        } else {
                            content
                        };
                        let nloc = RepoFilesDetailsLocation {
                            repo_id,
                            path,
                            eventstream_mount_subscription,
                            content,
                        };
                        self.details.insert(id, RepoFilesDetails { location: Some(nloc), status: d.status });
                        applied
                    },
                }
            },
        }
    }

    /// The view of instance `id`: empty (no location, `Initial` statuses)
    /// when `id` is not live.
    pub fn info(&self, id: u32) -> (r: RepoFilesDetailsInfo<'_>)
        ensures
            !self.details@.contains_key(id) ==> r.repo_id is None && r.path is None && r.status
                == Status::<LoadFilesError>::Initial && r.content_status
                == Status::<GetFilesReaderError>::Initial,
            self.details@.contains_key(id) ==> r.status == self.details@[id].status,
            self.details@.contains_key(id) && self.details@[id].location is None ==> r.repo_id is None
                && r.path is None && r.content_status == Status::<GetFilesReaderError>::Initial,
            self.details@.contains_key(id) && self.details@[id].location is Some ==> {
                let loc = self.details@[id].location->Some_0;
                &&& r.repo_id is Some && r.repo_id->Some_0@ == loc.repo_id@
                &&& r.path is Some && r.path->Some_0@ == loc.path@
                &&& r.content_status == loc.content.status
            },
    {
        match self.details.get(&id) {
            None => RepoFilesDetailsInfo {
                repo_id: None,
                path: None,
                status: Status::Initial,
                content_status: Status::Initial,
            },
            Some(d) => match &d.location {
                None => RepoFilesDetailsInfo {
                    repo_id: None,
                    path: None,
                    status: copy_load_status(&d.status),
                    content_status: Status::Initial,
                },
                Some(loc) => RepoFilesDetailsInfo {
                    repo_id: Some(loc.repo_id.as_str()),
                    path: Some(loc.path.as_str()),
                    status: copy_load_status(&d.status),
                    content_status: copy_content_status(&loc.content.status),
                },
            },
        }
    }

    /// Reacts to a push change under path `changed` of mount `key` for
    /// instance `id`: when it touches the instance's file, its resolution is
    /// restarted and, when a content load was ever started for it, so is its
    /// content load, under the same version guard as a pulled load.
    pub fn on_mount_changed(&mut self, id: u32, key: &String, changed: &str) -> (r: PushReload)
        requires
            old(self).wf(),
        ensures
            final(self).wf(),
            final(self).next_id == old(self).next_id,
            r.load_files == push_affects(old(self).details@, id, key@, changed@),
            ({
                let m1 = if r.load_files {
                    spec_files_start(old(self).details@, id)
                } else {
                    old(self).details@
                };
                let reload_content = r.load_files && old(self).details@[id].location->Some_0.content.status
                    != Status::<GetFilesReaderError>::Initial;
                &&& final(self).details@ == if reload_content {
                    spec_content_start(m1, id)
                } else {
                    m1
                }
                &&& r.content_version is Some <==> reload_content && can_start_content(m1, id)
                &&& r.content_version is Some ==> r.content_version->Some_0 == m1[id].location->Some_0.content.version + 1
            }),
    {
        let affected = match self.details.get(&id) {
            None => false,
            Some(d) => match &d.location {
                None => false,
                Some(loc) => match &loc.eventstream_mount_subscription {
                    None => false,
                    Some(held) => *held == *key && path_affected(changed, loc.path.as_str()),
                },
            },
        };
        if !affected {
            return PushReload { load_files: false, content_version: None };
        }
        let content_started = match self.details.get(&id) {
            Some(d) => match &d.location {
                Some(loc) => match loc.content.status {
                    Status::Initial => false,
                    _ => true,
                },
                None => false,
            },
            None => false,
        };
        self.load_files_start(id);
        let content_version = if content_started {
            self.load_content_start(id)
        } else {
            None
        };
        PushReload { load_files: true, content_version }
    }
}

/// Last started wins: when two content loads of `id` start one after the
/// other and the earlier one completes after the later one, the instance
/// keeps the later load's result.
pub proof fn lemma_last_started_wins(
    m: Map<u32, RepoFilesDetails>,
    id: u32,
    first: Result<Vec<u8>, GetFilesReaderError>,
    second: Result<Vec<u8>, GetFilesReaderError>,
)
    requires
        can_start_content(m, id),
        m[id].location->Some_0.content.version < u32::MAX - 1,
    ensures
        ({
            let m1 = spec_content_start(m, id);
            let v1 = m1[id].location->Some_0.content.version;
            let m2 = spec_content_start(m1, id);
            let v2 = m2[id].location->Some_0.content.version;
            let m3 = spec_content_finish(m2, id, v2, second);
            let m4 = spec_content_finish(m3, id, v1, first);
            &&& v1 < v2
            &&& m4 == m3
            &&& m4[id].location->Some_0.content == content_finished(
                m2[id].location->Some_0.content,
                v2,
                second,
            )
            &&& m4[id].location->Some_0.content.version == v2
        }),
{
}

/// A destroyed instance is gone, and whatever arrives for it afterwards
/// (a resolution, a content load and its completion) changes nothing.
pub proof fn lemma_destroyed_is_inert(
    m: Map<u32, RepoFilesDetails>,
    id: u32,
    version: u32,
    result: Result<Vec<u8>, GetFilesReaderError>,
    resolved: Result<String, LoadFilesError>,
    after: Map<u32, RepoFilesDetails>,
    k0: Map<Seq<char>, nat>,
    k1: Map<Seq<char>, nat>,
    opened: Option<bool>,
)
    ensures
        !m.remove(id).contains_key(id),
        files_finished(m.remove(id), after, k0, k1, id, resolved, opened) ==> after == m.remove(id)
            && k1 == k0 && opened is None,
        spec_files_start(m.remove(id), id) == m.remove(id),
        spec_content_start(m.remove(id), id) == m.remove(id),
        spec_content_finish(m.remove(id), id, version, result) == m.remove(id),
{
}

/// Runs a sequence of instance lifecycle calls on the set of live ids and the
/// id counter: `None` creates an instance under the next id, `Some(id)`
/// destroys `id`.
pub open spec fn run_lifecycle(live: Set<u32>, next: u32, ops: Seq<Option<u32>>) -> (Set<u32>, u32)
    decreases ops.len(),
{
    if ops.len() == 0 {
        (live, next)
    } else {
        let (l, n) = run_lifecycle(live, next, ops.drop_last());
        match ops.last() {
            None => (l.insert(n), (n + 1) as u32),
            Some(id) => (l.remove(id), n),
        }
    }
}

/// Number of creations in `ops`.
pub open spec fn count_creates(ops: Seq<Option<u32>>) -> nat
    decreases ops.len(),
{
    if ops.len() == 0 {
        0
    } else {
        count_creates(ops.drop_last()) + if ops.last() is None {
            1nat
        } else {
            0nat
        }
    }
}

/// Whether call `k` of `ops`, run from counter `next`, created `id`.
pub open spec fn created_at(next: u32, ops: Seq<Option<u32>>, k: int, id: u32) -> bool {
    0 <= k < ops.len() && ops[k] is None && id == next + count_creates(ops.subrange(0, k))
}

/// Whether some call of `ops` after call `k` destroys `id`.
pub open spec fn destroyed_after(ops: Seq<Option<u32>>, k: int, id: u32) -> bool {
    exists|j: int| k < j < ops.len() && ops[j] == Some(id)
}

/// After any sequence of creations and destructions the live ids are exactly
/// those live before and never destroyed since, and those created and not
/// destroyed afterwards; every live id lies below the counter, so no id is
/// handed out twice.
pub proof fn lemma_live_ids(live: Set<u32>, next: u32, ops: Seq<Option<u32>>)
    requires
        forall|id: u32| #[trigger] live.contains(id) ==> id < next,
        next + count_creates(ops) <= u32::MAX,
    ensures
        run_lifecycle(live, next, ops).1 == next + count_creates(ops),
        forall|id: u32| #[trigger] run_lifecycle(live, next, ops).0.contains(id) ==> id
            < run_lifecycle(live, next, ops).1,
        forall|id: u32|
            #[trigger] run_lifecycle(live, next, ops).0.contains(id) <==> (live.contains(id)
                && !destroyed_after(ops, -1, id)) || exists|k: int|
                created_at(next, ops, k, id) && !destroyed_after(ops, k, id),
    decreases ops.len(),
{
    if ops.len() > 0 {
        let pre = ops.drop_last();
        let last = ops.last();
        let n0 = pre.len() as int;
        assert(count_creates(pre) <= count_creates(ops));
        lemma_live_ids(live, next, pre);
        let (l, n) = run_lifecycle(live, next, pre);
        assert forall|k: int| 0 <= k <= n0 implies #[trigger] ops.subrange(0, k) == pre.subrange(0, k) by {
            assert(ops.subrange(0, k) =~= pre.subrange(0, k));
        }
        assert(ops.subrange(0, n0) =~= pre);
        assert forall|id: u32|
            #[trigger] run_lifecycle(live, next, ops).0.contains(id) <==> (live.contains(id)
                && !destroyed_after(ops, -1, id)) || exists|k: int|
                created_at(next, ops, k, id) && !destroyed_after(ops, k, id) by {
            let rhs_pre = (live.contains(id) && !destroyed_after(pre, -1, id)) || exists|k: int|
                created_at(next, pre, k, id) && !destroyed_after(pre, k, id);
            assert(l.contains(id) == rhs_pre);
            assert forall|k: int| -1 <= k < n0 implies destroyed_after(ops, k, id) == (destroyed_after(pre, k, id)
                || last == Some(id)) by {
                if destroyed_after(pre, k, id) {
                    let j = choose|j: int| k < j < pre.len() && pre[j] == Some(id);
                    assert(ops[j] == pre[j]);
                }
                if destroyed_after(ops, k, id) {
                    let j = choose|j: int| k < j < ops.len() && ops[j] == Some(id);
                    if j < n0 {
                        assert(ops[j] == pre[j]);
                    }
                }
                if last == Some(id) {
                    assert(ops[n0] == Some(id));
                }
            }
            assert forall|k: int| 0 <= k < n0 implies created_at(next, ops, k, id) == created_at(next, pre, k, id) by {
                assert(ops.subrange(0, k) == pre.subrange(0, k));
                assert(ops[k] == pre[k]);
            }
            match last {
                None => {
                    if exists|k: int| created_at(next, ops, k, id) && !destroyed_after(ops, k, id) {
                        let k = choose|k: int| created_at(next, ops, k, id) && !destroyed_after(ops, k, id);
                        if k < n0 {
                            assert(created_at(next, pre, k, id) && !destroyed_after(pre, k, id));
                        } else {
                            assert(id == n);
                        }
                    }
                    if id == n {
                        assert(created_at(next, ops, n0, id) && !destroyed_after(ops, n0, id));
                    }
                    if exists|k: int| created_at(next, pre, k, id) && !destroyed_after(pre, k, id) {
                        let k = choose|k: int| created_at(next, pre, k, id) && !destroyed_after(pre, k, id);
                        assert(created_at(next, ops, k, id) && !destroyed_after(ops, k, id));
                    }
                },
                Some(d) => {
                    if exists|k: int| created_at(next, ops, k, id) && !destroyed_after(ops, k, id) {
                        let k = choose|k: int| created_at(next, ops, k, id) && !destroyed_after(ops, k, id);
                        assert(k < n0);
                        assert(created_at(next, pre, k, id) && !destroyed_after(pre, k, id));
                    }
                    if id != d && exists|k: int| created_at(next, pre, k, id) && !destroyed_after(pre, k, id) {
                        let k = choose|k: int| created_at(next, pre, k, id) && !destroyed_after(pre, k, id);
                        assert(created_at(next, ops, k, id) && !destroyed_after(ops, k, id));
                    }
                },
            }
        }
    }
}

} // verus!
