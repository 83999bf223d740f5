use std::cell::Cell;
use std::rc::Rc;

use vault_core::errors::LoadFilesError;
use vault_core::status::Status;
use vault_core::store::{Event, Notifiable};
use vault_core::vault::{Repo, RepoNotFoundError, Vault};

struct Counter(Rc<Cell<u32>>);

impl Notifiable for Counter {
    fn invoke(&self) {
        self.0.set(self.0.get() + 1);
    }
}

fn vault() -> Vault<Counter> {
    Vault::new(String::from("https://vault.example"))
}

fn repo(id: &str, unlocked: bool) -> Repo {
    Repo { id: String::from(id), name: format!("name {}", id), unlocked }
}

#[test]
fn new_vault_keeps_base_url() {
    let v = vault();
    assert_eq!(v.with_state(|s| s.base_url.clone()), "https://vault.example");
    assert!(v.with_state(|s| s.notifications.is_empty()));
}

#[test]
fn notifications_show_and_remove() {
    let mut v = vault();
    v.notifications_show(String::from("one"));
    v.notifications_show(String::from("two"));
    v.notifications_show(String::from("three"));
    let ids: Vec<u32> = v.with_state(|s| s.notifications.iter().map(|n| n.id).collect());
    assert_eq!(ids, vec![1, 2, 3]);
    v.notifications_remove(2);
    let left: Vec<String> = v.with_state(|s| s.notifications.iter().map(|n| n.message.clone()).collect());
    assert_eq!(left, vec![String::from("one"), String::from("three")]);
    v.notifications_remove(99);
    assert_eq!(v.with_state(|s| s.notifications.len()), 2);
    v.notifications_remove_all();
    assert_eq!(v.with_state(|s| s.notifications.len()), 0);
}

#[test]
fn notification_ids_share_the_listener_id_space() {
    let mut v = vault();
    let listener = v.get_next_id();
    v.notifications_show(String::from("x"));
    let nid = v.with_state(|s| s.notifications[0].id);
    assert_ne!(listener, nid);
    assert_eq!(v.get_next_id(), nid + 1);
}

#[test]
fn vault_listener_sees_mutations_until_removed() {
    let mut v = vault();
    let seen = Rc::new(Cell::new(0));
    let id = v.get_next_id();
    v.on(id, &[Event::Notifications], Counter(seen.clone()));
    v.notifications_show(String::from("hello"));
    assert_eq!(seen.get(), 1);
    v.repo_unlock_init("r");
    assert_eq!(seen.get(), 1);
    v.remove_listener(id);
    v.notifications_show(String::from("again"));
    assert_eq!(seen.get(), 1);
}

#[test]
fn repos_lock_repo_locks_only_that_repo() {
    let mut v = vault();
    v.repos_loaded(vec![repo("a", true), repo("b", true)]);
    assert_eq!(v.repos_lock_repo("a"), Ok(()));
    let flags: Vec<bool> = v.with_state(|s| s.repos.iter().map(|r| r.unlocked).collect());
    assert_eq!(flags, vec![false, true]);
    assert_eq!(v.repos_lock_repo("zzz"), Err(RepoNotFoundError));
}

#[test]
fn dialog_destroy_only_closes_its_own_repo() {
    let mut v = vault();
    v.repo_unlock_init("a");
    v.repo_unlock_destroy("b");
    assert_eq!(v.with_state(|s| s.repo_unlock.clone()), Some(String::from("a")));
    v.repo_unlock_destroy("a");
    assert_eq!(v.with_state(|s| s.repo_unlock.clone()), None);
    v.repo_remove_init("a");
    v.repo_config_backup_init("a");
    v.repo_space_usage_init("a");
    v.repo_remove_destroy("a");
    v.repo_config_backup_destroy("x");
    v.repo_space_usage_destroy("a");
    assert_eq!(v.with_state(|s| s.repo_remove.clone()), None);
    assert_eq!(v.with_state(|s| s.repo_config_backup.clone()), Some(String::from("a")));
    assert_eq!(v.with_state(|s| s.repo_space_usage.clone()), None);
}

#[test]
fn logout_clears_session_state() {
    let mut v = vault();
    v.notifications_show(String::from("x"));
    v.repos_loaded(vec![repo("a", true)]);
    v.repo_unlock_init("a");
    let id = v.repo_files_details_create("a", "/f");
    v.repo_create_reset();
    v.repo_files_move_cancel();
    v.logout();
    assert!(v.with_state(|s| s.notifications.is_empty() && s.repos.is_empty() && s.repo_unlock.is_none()));
    assert!(v.with_state(|s| s.repo_files_details.details.contains_key(&id)));
}

#[test]
fn details_end_to_end_through_the_vault() {
    let mut v = vault();
    let seen = Rc::new(Cell::new(0));
    let lid = v.get_next_id();
    v.on(lid, &[Event::RepoFilesDetails], Counter(seen.clone()));
    let id = v.repo_files_details_create("repo", "/a");
    assert!(v.repo_files_details_load_files_start(id));
    assert_eq!(v.repo_files_details_load_files_finish(id, Ok(String::from("m"))), Some(true));
    let v1 = v.repo_files_details_load_content_start(id).unwrap();
    let push = v.repo_files_details_on_mount_changed(id, &String::from("m"), "/a");
    let v2 = push.content_version.unwrap();
    assert!(v.repo_files_details_load_content_finish(id, v2, Ok(vec![2])));
    assert!(!v.repo_files_details_load_content_finish(id, v1, Ok(vec![1])));
    let (status, bytes) = v.with_state(|s| {
        let c = &s.repo_files_details.details[&id].location.as_ref().unwrap().content;
        (c.status.clone(), c.bytes.clone())
    });
    assert!(status == Status::Loaded);
    assert_eq!(bytes, Some(vec![2]));
    assert!(seen.get() >= 5);
    assert_eq!(v.repo_files_details_destroy(id), Some(String::from("m")));
    assert!(v.with_state(|s| s.repo_files_details.details.is_empty()));
    assert_eq!(v.repo_files_details_load_files_finish(id, Err(LoadFilesError::Transport)), None);
}

#[test]
fn browsers_through_the_vault() {
    let mut v = vault();
    let id = v.repo_files_browsers_create("repo", "/");
    assert!(v.repo_files_browsers_load_files_start(id));
    assert_eq!(v.repo_files_browsers_load_files_finish(id, Ok(String::from("m"))), Some(true));
    v.repo_files_browsers_clear_selection(id);
    assert_eq!(v.repo_files_browsers_destroy(id), Some(String::from("m")));
    assert!(v.with_state(|s| s.repo_files_browsers.browsers.is_empty()));
    assert_eq!(v.mounts.holders(&String::from("m")), 0);
}
