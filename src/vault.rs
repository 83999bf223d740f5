use vstd::prelude::*;

use crate::errors::{GetFilesReaderError, LoadFilesError};
use crate::mount::MountSubscriptions;
use crate::repo_files_details::{
    files_finished, is_fresh, mount_released, spec_content_finish, spec_content_start, spec_files_start, PushReload,
    RepoFilesDetailsState,
};
use crate::repo_files_browsers::{
    browser_files_finished, browser_mount_released, is_fresh_browser, spec_browser_load_start,
    RepoFilesBrowsersState,
};
use crate::store::{Event, Notifiable, Store};

verus! {

pub struct Notification {
    pub id: u32,
    pub message: String,
}

/// A remote repository as the client knows it.
pub struct Repo {
    pub id: String,
    pub name: String,
    /// Whether its key is held in memory, so that its files can be read.
    pub unlocked: bool,
}

/// `repos_lock_repo` was asked for a repository that is not known.
#[derive(Clone, Copy, PartialEq, Eq, Debug, Structural)]
pub struct RepoNotFoundError;

/// The state tree that the vault's store holds.
pub struct State {
    pub base_url: String,
    pub notifications: Vec<Notification>,
    pub repos: Vec<Repo>,
    pub repo_files_browsers: RepoFilesBrowsersState,
    pub repo_files_details: RepoFilesDetailsState,
    /// The repository that each single-repository dialog is open for.
    pub repo_unlock: Option<String>,
    pub repo_remove: Option<String>,
    pub repo_config_backup: Option<String>,
    pub repo_space_usage: Option<String>,
    /// Whether the repository-creation form and the move dialog are open.
    pub repo_create: bool,
    pub repo_files_move: bool,
}

/// Whether a single-repository dialog holds `repo_id` and is left as it was, or
/// is closed, after `destroy(repo_id)` on a dialog that held `before`.
pub open spec fn dialog_destroyed(before: Option<String>, after: Option<String>, repo_id: Seq<char>) -> bool {
    match before {
        Some(r) => if r@ == repo_id {
            after is None
        } else {
            after == before
        },
        None => after is None,
    }
}

fn destroy_dialog(dialog: &mut Option<String>, repo_id: &str)
    ensures
        dialog_destroyed(*old(dialog), *final(dialog), repo_id@),
{
    let held = match dialog {
        Some(r) => r.as_str().to_owned(),
        None => return,
    };
    let target = repo_id.to_owned();
    if held == target {
        *dialog = None;
    }
}

/// Whether two state trees agree on everything but the file-details section.
pub open spec fn same_but_details(a: State, b: State) -> bool {
    &&& a.base_url == b.base_url
    &&& a.notifications == b.notifications
    &&& a.repos == b.repos
    &&& a.repo_files_browsers == b.repo_files_browsers
    &&& a.repo_unlock == b.repo_unlock
    &&& a.repo_remove == b.repo_remove
    &&& a.repo_config_backup == b.repo_config_backup
    &&& a.repo_space_usage == b.repo_space_usage
    &&& a.repo_create == b.repo_create
    &&& a.repo_files_move == b.repo_files_move
}

/// The client core: one store with its state tree, and the registry of mount
/// subscriptions that resource instances hold.
pub struct Vault<C> {
    pub store: Store<State, C>,
    pub mounts: MountSubscriptions,
}

impl<C: Notifiable> Vault<C> {
    pub open spec fn wf(&self) -> bool {
        &&& self.store.wf()
        &&& self.store.state.repo_files_details.wf()
        &&& self.store.state.repo_files_browsers.wf()
        &&& self.mounts.wf()
    }

    /// What every mutation keeps: the listener registry and the id allocator.
    pub open spec fn keeps_registry(&self, before: &Self) -> bool {
        &&& self.store.registry() == before.store.registry()
        &&& self.store.spec_next_id() == before.store.spec_next_id()
    }

    pub fn new(base_url: String) -> (r: Self)
        ensures
            r.wf(),
            r.store.state.base_url == base_url,
            r.store.state.notifications@.len() == 0,
            r.store.state.repos@.len() == 0,
            r.store.state.repo_files_browsers.browsers@ == Map::<u32, crate::repo_files_browsers::RepoFilesBrowser>::empty(),
            r.store.state.repo_files_details.details@ == Map::<u32, crate::repo_files_details::RepoFilesDetails>::empty(),
            r.store.state.repo_unlock is None,
            r.store.state.repo_remove is None,
            r.store.state.repo_config_backup is None,
            r.store.state.repo_space_usage is None,
            !r.store.state.repo_create,
            !r.store.state.repo_files_move,
            r.store.registry().len() == 0,
            r.mounts@ == Map::<Seq<char>, nat>::empty(),
    {
        let state = State {
            base_url,
            notifications: Vec::new(),
            repos: Vec::new(),
            repo_files_browsers: RepoFilesBrowsersState::new(),
            repo_files_details: RepoFilesDetailsState::new(),
            repo_unlock: None,
            repo_remove: None,
            repo_config_backup: None,
            repo_space_usage: None,
            repo_create: false,
            repo_files_move: false,
        };
        Vault { store: Store::new(state), mounts: MountSubscriptions::new() }
    }

    // store

    pub fn get_next_id(&mut self) -> (r: u32)
        requires
            old(self).store.spec_next_id() < u32::MAX,
        ensures
            r == old(self).store.spec_next_id(),
            final(self).store.spec_next_id() == r + 1,
            final(self).store.state == old(self).store.state,
            final(self).store.registry() == old(self).store.registry(),
            final(self).mounts == old(self).mounts,
    {
        self.store.get_next_id()
    }

    pub fn on(&mut self, id: u32, events: &[Event], callback: C)
        requires
            old(self).wf(),
        ensures
            final(self).wf(),
            final(self).store.listens(id, events@),
            forall|e: Seq<Event>| #[trigger] final(self).store.listens(id, e) ==> e == events@,
            forall|other: u32, e: Seq<Event>|
                other != id ==> (final(self).store.listens(other, e) <==> old(self).store.listens(other, e)),
            final(self).store.state == old(self).store.state,
            final(self).store.spec_next_id() == old(self).store.spec_next_id(),
            final(self).mounts == old(self).mounts,
    {
        self.store.on(id, events, callback)
    }

    pub fn remove_listener(&mut self, id: u32)
        requires
            old(self).wf(),
        ensures
            final(self).wf(),
            !final(self).store.has_listener(id),
            forall|other: u32, e: Seq<Event>|
                other != id ==> (final(self).store.listens(other, e) <==> old(self).store.listens(other, e)),
            final(self).store.state == old(self).store.state,
            final(self).store.spec_next_id() == old(self).store.spec_next_id(),
            final(self).mounts == old(self).mounts,
    {
        self.store.remove_listener(id)
    }

    pub fn with_state<F, R>(&self, f: F) -> (r: R)
        where
            F: FnOnce(&State) -> R,
        requires
            f.requires((&self.store.state,)),
        ensures
            f.ensures((&self.store.state,), r),
    {
        self.store.with_state(f)
    }

    // notifications

    /// Shows `message` under a fresh id.
    pub fn notifications_show(&mut self, message: String)
        requires
            old(self).wf(),
            old(self).store.spec_next_id() < u32::MAX,
        ensures
            final(self).wf(),
            final(self).store.state == (State { notifications: final(self).store.state.notifications, ..old(self).store.state }),
            final(self).mounts == old(self).mounts,
            final(self).store.spec_next_id() == old(self).store.spec_next_id() + 1,
            final(self).store.registry() == old(self).store.registry(),
            final(self).store.state.notifications@.len() == old(self).store.state.notifications@.len() + 1,
            forall|i: int| 0 <= i < old(self).store.state.notifications@.len()
                ==> final(self).store.state.notifications@[i] == old(self).store.state.notifications@[i],
            final(self).store.state.notifications@.last().id == old(self).store.spec_next_id(),
            final(self).store.state.notifications@.last().message == message,
    {
        let id = self.store.get_next_id();
        self.store.state.notifications.push(Notification { id, message });
        self.store.notify(&[Event::Notifications]);
    }

    /// Removes the notification `id`; the others stay in their order.
    pub fn notifications_remove(&mut self, id: u32)
        requires
            old(self).wf(),
        ensures
            final(self).wf(),
            final(self).keeps_registry(old(self)),
            final(self).store.state == (State { notifications: final(self).store.state.notifications, ..old(self).store.state }),
            final(self).mounts == old(self).mounts,
            final(self).store.state.notifications@ == old(self).store.state.notifications@.filter(
                |n: Notification| n.id != id,
            ),
    {
        let ghost before = self.store.state.notifications@;
        let mut kept: Vec<Notification> = Vec::new();
        let mut i: usize = 0;
        while i < self.store.state.notifications.len()
            invariant
                0 <= i <= before.len(),
                self.store.state.notifications@ == before,
                kept@ == before.subrange(0, i as int).filter(|n: Notification| n.id != id),
            decreases before.len() - i,
        {
            let n = &self.store.state.notifications[i];
            assert(before.subrange(0, i + 1).drop_last() =~= before.subrange(0, i as int));
            let ghost pred = |m: Notification| m.id != id;
            assert(before.subrange(0, i + 1).last() == before[i as int]);
            reveal_with_fuel(Seq::<_>::filter, 1);
            assert(before.subrange(0, i + 1).filter(pred) == if pred(before[i as int]) {
                before.subrange(0, i as int).filter(pred).push(before[i as int])
            } else {
                before.subrange(0, i as int).filter(pred)
            });
            if n.id != id {
                let kept_one = Notification { id: n.id, message: n.message.clone() };
                assert(kept_one == before[i as int]);
                kept.push(kept_one);
            }
            i = i + 1;
        }
        assert(before.subrange(0, before.len() as int) =~= before);
        self.store.state.notifications = kept;
        self.store.notify(&[Event::Notifications]);
    }

    pub fn notifications_remove_all(&mut self)
        requires
            old(self).wf(),
        ensures
            final(self).wf(),
            final(self).keeps_registry(old(self)),
            final(self).store.state == (State { notifications: final(self).store.state.notifications, ..old(self).store.state }),
            final(self).mounts == old(self).mounts,
            final(self).store.state.notifications@.len() == 0,
    {
        self.store.state.notifications = Vec::new();
        self.store.notify(&[Event::Notifications]);
    }

    /// Signs the user out: notifications and known repositories go and every
    /// dialog closes. File
    /// details instances stay until their owners destroy them, and ids keep
    /// counting up.
    pub fn logout(&mut self)
        requires
            old(self).wf(),
        ensures
            final(self).wf(),
            final(self).keeps_registry(old(self)),
            final(self).mounts == old(self).mounts,
            final(self).store.state.base_url == old(self).store.state.base_url,
            final(self).store.state.repo_files_details == old(self).store.state.repo_files_details,
            final(self).store.state.repo_files_browsers == old(self).store.state.repo_files_browsers,
            final(self).store.state.notifications@.len() == 0,
            final(self).store.state.repos@.len() == 0,
            final(self).store.state.repo_unlock is None,
            final(self).store.state.repo_remove is None,
            final(self).store.state.repo_config_backup is None,
            final(self).store.state.repo_space_usage is None,
            !final(self).store.state.repo_create,
            !final(self).store.state.repo_files_move,
    {
        self.store.state.notifications = Vec::new();
        self.store.state.repos = Vec::new();
        self.store.state.repo_unlock = None;
        self.store.state.repo_remove = None;
        self.store.state.repo_config_backup = None;
        self.store.state.repo_space_usage = None;
        self.store.state.repo_create = false;
        self.store.state.repo_files_move = false;
        self.store.notify(
            &[
                Event::Notifications,
                Event::User,
                Event::Repos,
                Event::RepoCreate,
                Event::RepoUnlock,
                Event::RepoRemove,
                Event::RepoConfigBackup,
                Event::RepoSpaceUsage,
                Event::RepoFilesMove,
            ],
        );
    }

    // repos

    /// Replaces the known repositories with a freshly loaded list.
    pub fn repos_loaded(&mut self, repos: Vec<Repo>)
        requires
            old(self).wf(),
        ensures
            final(self).wf(),
            final(self).keeps_registry(old(self)),
            final(self).store.state == (State { repos: final(self).store.state.repos, ..old(self).store.state }),
            final(self).mounts == old(self).mounts,
            final(self).store.state.repos == repos,
    {
        self.store.state.repos = repos;
        self.store.notify(&[Event::Repos]);
    }

    /// Locks every known repository with id `repo_id`, so that its files can
    /// no longer be read until it is unlocked again.
    pub fn repos_lock_repo(&mut self, repo_id: &str) -> (r: Result<(), RepoNotFoundError>)
        requires
            old(self).wf(),
        ensures
            final(self).wf(),
            final(self).keeps_registry(old(self)),
            final(self).store.state == (State { repos: final(self).store.state.repos, ..old(self).store.state }),
            final(self).mounts == old(self).mounts,
            final(self).store.state.repos@.len() == old(self).store.state.repos@.len(),
            forall|i: int| 0 <= i < old(self).store.state.repos@.len() ==> {
                let before = #[trigger] old(self).store.state.repos@[i];
                let after = final(self).store.state.repos@[i];
                &&& after.id == before.id
                &&& after.name == before.name
                &&& after.unlocked == (before.unlocked && before.id@ != repo_id@)
            },
            r is Ok <==> exists|i: int|
                0 <= i < old(self).store.state.repos@.len() && (#[trigger] old(self).store.state.repos@[i]).id@ == repo_id@,
    {
        let target = repo_id.to_owned();
        let ghost before = self.store.state.repos@;
        let mut repos: Vec<Repo> = Vec::new();
        let mut found = false;
        let mut i: usize = 0;
        while i < self.store.state.repos.len()
            invariant
                0 <= i <= before.len(),
                self.store.state.repos@ == before,
                target@ == repo_id@,
                repos@.len() == i,
                forall|k: int| 0 <= k < i ==> {
                    let b = #[trigger] before[k];
                    let a = repos@[k];
                    &&& a.id == b.id
                    &&& a.name == b.name
                    &&& a.unlocked == (b.unlocked && b.id@ != repo_id@)
                },
                found <==> exists|k: int| 0 <= k < i && (#[trigger] before[k]).id@ == repo_id@,
            decreases before.len() - i,
        {
            let repo = &self.store.state.repos[i];
            let matches = repo.id == target;
            if matches {
                found = true;
            }
            repos.push(Repo { id: repo.id.clone(), name: repo.name.clone(), unlocked: repo.unlocked && !matches });
            i = i + 1;
        }
        self.store.state.repos = repos;
        self.store.notify(&[Event::Repos]);
        if found {
            Ok(())
        } else {
            Err(RepoNotFoundError)
        }
    }

    // single-repository dialogs

    pub fn repo_unlock_init(&mut self, repo_id: &str)
        requires
            old(self).wf(),
        ensures
            final(self).wf(),
            final(self).keeps_registry(old(self)),
            final(self).store.state == (State { repo_unlock: final(self).store.state.repo_unlock, ..old(self).store.state }),
            final(self).mounts == old(self).mounts,
            final(self).store.state.repo_unlock is Some,
            final(self).store.state.repo_unlock->Some_0@ == repo_id@,
    {
        self.store.state.repo_unlock = Some(repo_id.to_owned());
        self.store.notify(&[Event::RepoUnlock]);
    }

    /// Closes the unlock dialog if it is open for `repo_id`.
    pub fn repo_unlock_destroy(&mut self, repo_id: &str)
        requires
            old(self).wf(),
        ensures
            final(self).wf(),
            final(self).keeps_registry(old(self)),
            final(self).store.state == (State { repo_unlock: final(self).store.state.repo_unlock, ..old(self).store.state }),
            final(self).mounts == old(self).mounts,
            dialog_destroyed(old(self).store.state.repo_unlock, final(self).store.state.repo_unlock, repo_id@),
    {
        destroy_dialog(&mut self.store.state.repo_unlock, repo_id);
        self.store.notify(&[Event::RepoUnlock]);
    }

    pub fn repo_remove_init(&mut self, repo_id: &str)
        requires
            old(self).wf(),
        ensures
            final(self).wf(),
            final(self).keeps_registry(old(self)),
            final(self).store.state == (State { repo_remove: final(self).store.state.repo_remove, ..old(self).store.state }),
            final(self).mounts == old(self).mounts,
            final(self).store.state.repo_remove is Some,
            final(self).store.state.repo_remove->Some_0@ == repo_id@,
    {
        self.store.state.repo_remove = Some(repo_id.to_owned());
        self.store.notify(&[Event::RepoRemove]);
    }

    /// Closes the remove dialog if it is open for `repo_id`.
    pub fn repo_remove_destroy(&mut self, repo_id: &str)
        requires
            old(self).wf(),
        ensures
            final(self).wf(),
            final(self).keeps_registry(old(self)),
            final(self).store.state == (State { repo_remove: final(self).store.state.repo_remove, ..old(self).store.state }),
            final(self).mounts == old(self).mounts,
            dialog_destroyed(old(self).store.state.repo_remove, final(self).store.state.repo_remove, repo_id@),
    {
        destroy_dialog(&mut self.store.state.repo_remove, repo_id);
        self.store.notify(&[Event::RepoRemove]);
    }

    pub fn repo_config_backup_init(&mut self, repo_id: &str)
        requires
            old(self).wf(),
        ensures
            final(self).wf(),
            final(self).keeps_registry(old(self)),
            final(self).store.state == (State { repo_config_backup: final(self).store.state.repo_config_backup, ..old(self).store.state }),
            final(self).mounts == old(self).mounts,
            final(self).store.state.repo_config_backup is Some,
            final(self).store.state.repo_config_backup->Some_0@ == repo_id@,
    {
        self.store.state.repo_config_backup = Some(repo_id.to_owned());
        self.store.notify(&[Event::RepoConfigBackup]);
    }

    /// Closes the config backup dialog if it is open for `repo_id`.
    pub fn repo_config_backup_destroy(&mut self, repo_id: &str)
        requires
            old(self).wf(),
        ensures
            final(self).wf(),
            final(self).keeps_registry(old(self)),
            final(self).store.state == (State { repo_config_backup: final(self).store.state.repo_config_backup, ..old(self).store.state }),
            final(self).mounts == old(self).mounts,
            dialog_destroyed(
                old(self).store.state.repo_config_backup,
                final(self).store.state.repo_config_backup,
                repo_id@,
            ),
    {
        destroy_dialog(&mut self.store.state.repo_config_backup, repo_id);
        self.store.notify(&[Event::RepoConfigBackup]);
    }

    pub fn repo_space_usage_init(&mut self, repo_id: &str)
        requires
            old(self).wf(),
        ensures
            final(self).wf(),
            final(self).keeps_registry(old(self)),
            final(self).store.state == (State { repo_space_usage: final(self).store.state.repo_space_usage, ..old(self).store.state }),
            final(self).mounts == old(self).mounts,
            final(self).store.state.repo_space_usage is Some,
            final(self).store.state.repo_space_usage->Some_0@ == repo_id@,
    {
        self.store.state.repo_space_usage = Some(repo_id.to_owned());
        self.store.notify(&[Event::RepoSpaceUsage]);
    }

    /// Closes the space usage dialog if it is open for `repo_id`.
    pub fn repo_space_usage_destroy(&mut self, repo_id: &str)
        requires
            old(self).wf(),
        ensures
            final(self).wf(),
            final(self).keeps_registry(old(self)),
            final(self).store.state == (State { repo_space_usage: final(self).store.state.repo_space_usage, ..old(self).store.state }),
            final(self).mounts == old(self).mounts,
            dialog_destroyed(
                old(self).store.state.repo_space_usage,
                final(self).store.state.repo_space_usage,
                repo_id@,
            ),
    {
        destroy_dialog(&mut self.store.state.repo_space_usage, repo_id);
        self.store.notify(&[Event::RepoSpaceUsage]);
    }

    /// Clears the repository-creation form.
    pub fn repo_create_reset(&mut self)
        requires
            old(self).wf(),
        ensures
            final(self).wf(),
            final(self).keeps_registry(old(self)),
            final(self).store.state == (State { repo_create: final(self).store.state.repo_create, ..old(self).store.state }),
            final(self).mounts == old(self).mounts,
            !final(self).store.state.repo_create,
    {
        self.store.state.repo_create = false;
        self.store.notify(&[Event::RepoCreate]);
    }

    /// Closes the move dialog.
    pub fn repo_files_move_cancel(&mut self)
        requires
            old(self).wf(),
        ensures
            final(self).wf(),
            final(self).keeps_registry(old(self)),
            final(self).store.state == (State { repo_files_move: final(self).store.state.repo_files_move, ..old(self).store.state }),
            final(self).mounts == old(self).mounts,
            !final(self).store.state.repo_files_move,
    {
        self.store.state.repo_files_move = false;
        self.store.notify(&[Event::RepoFilesMove]);
    }

    // repo_files_browsers

    /// Creates a browser of directory `path` of repository `repo_id` and
    /// returns its id at once; its listing is started with
    /// `repo_files_browsers_load_files_start`.
    pub fn repo_files_browsers_create(&mut self, repo_id: &str, path: &str) -> (id: u32)
        requires
            old(self).wf(),
            old(self).store.state.repo_files_browsers.next_id < u32::MAX,
        ensures
            final(self).wf(),
            final(self).keeps_registry(old(self)),
            final(self).mounts == old(self).mounts,
            final(self).store.state == (State {
                repo_files_browsers: final(self).store.state.repo_files_browsers,
                ..old(self).store.state
            }),
            id == old(self).store.state.repo_files_browsers.next_id,
            final(self).store.state.repo_files_browsers.next_id == id + 1,
            final(self).store.state.repo_files_browsers.browsers@.dom()
                == old(self).store.state.repo_files_browsers.browsers@.dom().insert(id),
            is_fresh_browser(final(self).store.state.repo_files_browsers.browsers@[id], repo_id@, path@),
            forall|other: u32|
                other != id && #[trigger] old(self).store.state.repo_files_browsers.browsers@.contains_key(other)
                    ==> final(self).store.state.repo_files_browsers.browsers@[other]
                    == old(self).store.state.repo_files_browsers.browsers@[other],
    {
        let id = self.store.state.repo_files_browsers.create(repo_id, path);
        self.store.notify(&[Event::RepoFilesBrowsers]);
        id
    }

    /// Destroys browser `browser_id` and releases its mount subscription.
    /// Returns the key of a push channel that has to be closed now.
    pub fn repo_files_browsers_destroy(&mut self, browser_id: u32) -> (closed: Option<String>)
        requires
            old(self).wf(),
        ensures
            final(self).wf(),
            final(self).keeps_registry(old(self)),
            final(self).store.state == (State {
                repo_files_browsers: final(self).store.state.repo_files_browsers,
                ..old(self).store.state
            }),
            final(self).store.state.repo_files_browsers.browsers@
                == old(self).store.state.repo_files_browsers.browsers@.remove(browser_id),
            final(self).store.state.repo_files_browsers.next_id == old(self).store.state.repo_files_browsers.next_id,
            browser_mount_released(
                old(self).store.state.repo_files_browsers.browsers@,
                old(self).mounts@,
                final(self).mounts@,
                browser_id,
                closed,
            ),
    {
        let closed = self.store.state.repo_files_browsers.destroy(browser_id, &mut self.mounts);
        self.store.notify(&[Event::RepoFilesBrowsers]);
        closed
    }

    /// Starts listing browser `browser_id`; see
    /// `RepoFilesBrowsersState::load_files_start`.
    pub fn repo_files_browsers_load_files_start(&mut self, browser_id: u32) -> (started: bool)
        requires
            old(self).wf(),
        ensures
            final(self).wf(),
            final(self).keeps_registry(old(self)),
            final(self).mounts == old(self).mounts,
            final(self).store.state == (State {
                repo_files_browsers: final(self).store.state.repo_files_browsers,
                ..old(self).store.state
            }),
            final(self).store.state.repo_files_browsers.next_id == old(self).store.state.repo_files_browsers.next_id,
            final(self).store.state.repo_files_browsers.browsers@ == spec_browser_load_start(
                old(self).store.state.repo_files_browsers.browsers@,
                browser_id,
            ),
            started == (old(self).store.state.repo_files_browsers.browsers@.contains_key(browser_id)
                && old(self).store.state.repo_files_browsers.browsers@[browser_id].location is Some),
    {
        let started = self.store.state.repo_files_browsers.load_files_start(browser_id);
        self.store.notify(&[Event::RepoFilesBrowsers]);
        started
    }

    /// Applies the listing of browser `browser_id`; see
    /// `RepoFilesBrowsersState::load_files_finish`.
    pub fn repo_files_browsers_load_files_finish(
        &mut self,
        browser_id: u32,
        result: Result<String, LoadFilesError>,
    ) -> (opened: Option<bool>)
        requires
            old(self).wf(),
            result is Ok && old(self).mounts@.contains_key(result->Ok_0@) ==> old(self).mounts@[result->Ok_0@]
                < u64::MAX,
        ensures
            final(self).wf(),
            final(self).keeps_registry(old(self)),
            final(self).store.state == (State {
                repo_files_browsers: final(self).store.state.repo_files_browsers,
                ..old(self).store.state
            }),
            final(self).store.state.repo_files_browsers.next_id == old(self).store.state.repo_files_browsers.next_id,
            browser_files_finished(
                old(self).store.state.repo_files_browsers.browsers@,
                final(self).store.state.repo_files_browsers.browsers@,
                old(self).mounts@,
                final(self).mounts@,
                browser_id,
                result,
                opened,
            ),
    {
        let opened = self.store.state.repo_files_browsers.load_files_finish(browser_id, result, &mut self.mounts);
        self.store.notify(&[Event::RepoFilesBrowsers]);
        opened
    }

    /// Deselects every file of browser `browser_id`.
    pub fn repo_files_browsers_clear_selection(&mut self, browser_id: u32)
        requires
            old(self).wf(),
        ensures
            final(self).wf(),
            final(self).keeps_registry(old(self)),
            final(self).mounts == old(self).mounts,
            final(self).store.state == (State {
                repo_files_browsers: final(self).store.state.repo_files_browsers,
                ..old(self).store.state
            }),
            final(self).store.state.repo_files_browsers.next_id == old(self).store.state.repo_files_browsers.next_id,
            final(self).store.state.repo_files_browsers.browsers@.dom()
                == old(self).store.state.repo_files_browsers.browsers@.dom(),
            forall|other: u32|
                other != browser_id && #[trigger] old(self).store.state.repo_files_browsers.browsers@.contains_key(other)
                    ==> final(self).store.state.repo_files_browsers.browsers@[other]
                    == old(self).store.state.repo_files_browsers.browsers@[other],
            old(self).store.state.repo_files_browsers.browsers@.contains_key(browser_id) ==> {
                let b = final(self).store.state.repo_files_browsers.browsers@[browser_id];
                let a = old(self).store.state.repo_files_browsers.browsers@[browser_id];
                &&& b.selection@.len() == 0
                &&& b.location == a.location
                &&& b.status == a.status
            },
    {
        self.store.state.repo_files_browsers.clear_selection(browser_id);
        self.store.notify(&[Event::RepoFilesBrowsers]);
    }

    // repo_files_details

    /// Creates a file details instance for `path` of repository `repo_id` and
    /// returns its id at once; its resolution is started with
    /// `repo_files_details_load_files_start`.
    pub fn repo_files_details_create(&mut self, repo_id: &str, path: &str) -> (id: u32)
        requires
            old(self).wf(),
            old(self).store.state.repo_files_details.next_id < u32::MAX,
        ensures
            final(self).wf(),
            final(self).keeps_registry(old(self)),
            final(self).mounts == old(self).mounts,
            same_but_details(final(self).store.state, old(self).store.state),
            id == old(self).store.state.repo_files_details.next_id,
            final(self).store.state.repo_files_details.next_id == id + 1,
            final(self).store.state.repo_files_details.details@.dom()
                == old(self).store.state.repo_files_details.details@.dom().insert(id),
            is_fresh(final(self).store.state.repo_files_details.details@[id], repo_id@, path@),
            forall|other: u32|
                other != id && #[trigger] old(self).store.state.repo_files_details.details@.contains_key(other)
                    ==> final(self).store.state.repo_files_details.details@[other]
                    == old(self).store.state.repo_files_details.details@[other],
    {
        let id = self.store.state.repo_files_details.create(repo_id, path);
        self.store.notify(&[Event::RepoFilesDetails]);
        id
    }

    /// Destroys instance `details_id` and releases its mount subscription.
    /// Returns the key of a push channel that has to be closed now.
    pub fn repo_files_details_destroy(&mut self, details_id: u32) -> (closed: Option<String>)
        requires
            old(self).wf(),
        ensures
            final(self).wf(),
            final(self).keeps_registry(old(self)),
            same_but_details(final(self).store.state, old(self).store.state),
            final(self).store.state.repo_files_details.details@
                == old(self).store.state.repo_files_details.details@.remove(details_id),
            final(self).store.state.repo_files_details.next_id == old(self).store.state.repo_files_details.next_id,
            mount_released(
                old(self).store.state.repo_files_details.details@,
                old(self).mounts@,
                final(self).mounts@,
                details_id,
                closed,
            ),
    {
        let closed = self.store.state.repo_files_details.destroy(details_id, &mut self.mounts);
        self.store.notify(&[Event::RepoFilesDetails]);
        closed
    }

    /// Starts resolving instance `details_id`; see
    /// `RepoFilesDetailsState::load_files_start`.
    pub fn repo_files_details_load_files_start(&mut self, details_id: u32) -> (started: bool)
        requires
            old(self).wf(),
        ensures
            final(self).wf(),
            final(self).keeps_registry(old(self)),
            final(self).mounts == old(self).mounts,
            same_but_details(final(self).store.state, old(self).store.state),
            final(self).store.state.repo_files_details.next_id == old(self).store.state.repo_files_details.next_id,
            final(self).store.state.repo_files_details.details@ == spec_files_start(
                old(self).store.state.repo_files_details.details@,
                details_id,
            ),
            started == (old(self).store.state.repo_files_details.details@.contains_key(details_id)
                && old(self).store.state.repo_files_details.details@[details_id].location is Some),
    {
        let started = self.store.state.repo_files_details.load_files_start(details_id);
        self.store.notify(&[Event::RepoFilesDetails]);
        started
    }

    /// Applies the resolution of instance `details_id`; see
    /// `RepoFilesDetailsState::load_files_finish`.
    pub fn repo_files_details_load_files_finish(
        &mut self,
        details_id: u32,
        result: Result<String, LoadFilesError>,
    ) -> (opened: Option<bool>)
        requires
            old(self).wf(),
            result is Ok && old(self).mounts@.contains_key(result->Ok_0@) ==> old(self).mounts@[result->Ok_0@]
                < u64::MAX,
        ensures
            final(self).wf(),
            final(self).keeps_registry(old(self)),
            same_but_details(final(self).store.state, old(self).store.state),
            final(self).store.state.repo_files_details.next_id == old(self).store.state.repo_files_details.next_id,
            files_finished(
                old(self).store.state.repo_files_details.details@,
                final(self).store.state.repo_files_details.details@,
                old(self).mounts@,
                final(self).mounts@,
                details_id,
                result,
                opened,
            ),
    {
        let opened = self.store.state.repo_files_details.load_files_finish(details_id, result, &mut self.mounts);
        self.store.notify(&[Event::RepoFilesDetails]);
        opened
    }

    /// Starts a content load of instance `details_id` and returns its
    /// version; see `RepoFilesDetailsState::load_content_start`.
    pub fn repo_files_details_load_content_start(&mut self, details_id: u32) -> (version: Option<u32>)
        requires
            old(self).wf(),
        ensures
            final(self).wf(),
            final(self).keeps_registry(old(self)),
            final(self).mounts == old(self).mounts,
            same_but_details(final(self).store.state, old(self).store.state),
            final(self).store.state.repo_files_details.next_id == old(self).store.state.repo_files_details.next_id,
            final(self).store.state.repo_files_details.details@ == spec_content_start(
                old(self).store.state.repo_files_details.details@,
                details_id,
            ),
            version is Some <==> crate::repo_files_details::can_start_content(
                old(self).store.state.repo_files_details.details@,
                details_id,
            ),
            version is Some ==> version->Some_0 == old(self).store.state.repo_files_details.details@[details_id].location->Some_0.content.version + 1,
    {
        let version = self.store.state.repo_files_details.load_content_start(details_id);
        self.store.notify(&[Event::RepoFilesDetails]);
        version
    }

    /// Applies the completed content load of instance `details_id` started
    /// as `version`, unless it is stale; see
    /// `RepoFilesDetailsState::load_content_finish`.
    pub fn repo_files_details_load_content_finish(
        &mut self,
        details_id: u32,
        version: u32,
        result: Result<Vec<u8>, GetFilesReaderError>,
    ) -> (applied: bool)
        requires
            old(self).wf(),
        ensures
            final(self).wf(),
            final(self).keeps_registry(old(self)),
            final(self).mounts == old(self).mounts,
            same_but_details(final(self).store.state, old(self).store.state),
            final(self).store.state.repo_files_details.next_id == old(self).store.state.repo_files_details.next_id,
            final(self).store.state.repo_files_details.details@ == spec_content_finish(
                old(self).store.state.repo_files_details.details@,
                details_id,
                version,
                result,
            ),
            applied == (old(self).store.state.repo_files_details.details@.contains_key(details_id)
                && old(self).store.state.repo_files_details.details@[details_id].location is Some
                && old(self).store.state.repo_files_details.details@[details_id].location->Some_0.content.version
                == version),
    {
        let applied = self.store.state.repo_files_details.load_content_finish(details_id, version, result);
        if applied {
            self.store.notify(&[Event::RepoFilesDetails]);
        }
        applied
    }

    /// Routes a push change under path `changed` of mount `key` to instance
    /// `details_id`; see `RepoFilesDetailsState::on_mount_changed`.
    pub fn repo_files_details_on_mount_changed(
        &mut self,
        details_id: u32,
        key: &String,
        changed: &str,
    ) -> (r: PushReload)
        requires
            old(self).wf(),
        ensures
            final(self).wf(),
            final(self).keeps_registry(old(self)),
            final(self).mounts == old(self).mounts,
            same_but_details(final(self).store.state, old(self).store.state),
            r.load_files == crate::repo_files_details::push_affects(
                old(self).store.state.repo_files_details.details@,
                details_id,
                key@,
                changed@,
            ),
            final(self).store.state.repo_files_details.next_id == old(self).store.state.repo_files_details.next_id,
            ({
                let m0 = old(self).store.state.repo_files_details.details@;
                let m1 = if r.load_files {
                    spec_files_start(m0, details_id)
                } else {
                    m0
                };
                let reload_content = r.load_files && m0[details_id].location->Some_0.content.status
                    != crate::status::Status::<GetFilesReaderError>::Initial;
                &&& final(self).store.state.repo_files_details.details@ == if reload_content {
                    spec_content_start(m1, details_id)
                } else {
                    m1
                }
                &&& r.content_version is Some <==> reload_content && crate::repo_files_details::can_start_content(
                    m1,
                    details_id,
                )
                &&& r.content_version is Some ==> r.content_version->Some_0
                    == m1[details_id].location->Some_0.content.version + 1
            }),
    {
        let r = self.store.state.repo_files_details.on_mount_changed(details_id, key, changed);
        if r.load_files {
            self.store.notify(&[Event::RepoFilesDetails]);
        }
        r
    }
}

} // verus!
