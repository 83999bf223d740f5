use vault_core::errors::{GetFilesReaderError, LoadFilesError};
use vault_core::mount::MountSubscriptions;
use vault_core::repo_files_details::{path_affected, RepoFilesDetailsState};
use vault_core::status::Status;

fn content_status(s: &RepoFilesDetailsState, id: u32) -> Status<GetFilesReaderError> {
    s.details[&id].location.as_ref().unwrap().content.status.clone()
}

fn content_bytes(s: &RepoFilesDetailsState, id: u32) -> Option<Vec<u8>> {
    s.details[&id].location.as_ref().unwrap().content.bytes.clone()
}

#[test]
fn live_ids_follow_create_and_destroy() {
    let mut s = RepoFilesDetailsState::new();
    let mut mounts = MountSubscriptions::new();
    let a = s.create("r", "/a");
    let b = s.create("r", "/b");
    let c = s.create("r", "/c");
    assert_eq!((a, b, c), (0, 1, 2));
    s.destroy(b, &mut mounts);
    let d = s.create("r", "/d");
    assert_eq!(d, 3);
    s.destroy(a, &mut mounts);
    s.destroy(a, &mut mounts);
    let mut live: Vec<u32> = s.details.keys().cloned().collect();
    live.sort();
    assert_eq!(live, vec![c, d]);
}

#[test]
fn create_starts_initial() {
    let mut s = RepoFilesDetailsState::new();
    let id = s.create("repo", "/x/y");
    let d = &s.details[&id];
    assert!(d.status == Status::Initial);
    let loc = d.location.as_ref().unwrap();
    assert_eq!(loc.repo_id, "repo");
    assert_eq!(loc.path, "/x/y");
    assert!(loc.eventstream_mount_subscription.is_none());
    assert!(loc.content.status == Status::Initial);
    assert_eq!(loc.content.version, 0);
}

#[test]
fn load_files_resolves_and_subscribes_once() {
    let mut s = RepoFilesDetailsState::new();
    let mut mounts = MountSubscriptions::new();
    let a = s.create("r", "/a");
    let b = s.create("r", "/b");
    assert!(s.load_files_start(a));
    assert!(s.details[&a].status == Status::Loading);
    assert_eq!(s.load_files_finish(a, Ok(String::from("m")), &mut mounts), Some(true));
    assert!(s.details[&a].status == Status::Loaded);
    assert!(s.load_files_start(b));
    assert_eq!(s.load_files_finish(b, Ok(String::from("m")), &mut mounts), Some(false));
    assert_eq!(mounts.holders(&String::from("m")), 2);
    assert!(s.load_files_start(a));
    assert!(s.details[&a].status == Status::Reloading);
    assert_eq!(s.load_files_finish(a, Ok(String::from("m")), &mut mounts), Some(false));
    assert_eq!(mounts.holders(&String::from("m")), 2);
    assert_eq!(s.destroy(a, &mut mounts), None);
    assert_eq!(s.destroy(b, &mut mounts), Some(String::from("m")));
    assert_eq!(mounts.holders(&String::from("m")), 0);
}

#[test]
fn load_files_error_is_stored() {
    let mut s = RepoFilesDetailsState::new();
    let mut mounts = MountSubscriptions::new();
    let a = s.create("r", "/a");
    s.load_files_start(a);
    assert_eq!(s.load_files_finish(a, Err(LoadFilesError::NotFound), &mut mounts), Some(false));
    assert!(s.details[&a].status == Status::Error { error: LoadFilesError::NotFound });
    s.load_files_start(a);
    assert!(s.details[&a].status == Status::Loading);
}

#[test]
fn stale_content_is_dropped() {
    let mut s = RepoFilesDetailsState::new();
    let id = s.create("r", "/a");
    let v1 = s.load_content_start(id).unwrap();
    assert!(content_status(&s, id) == Status::Loading);
    let v2 = s.load_content_start(id).unwrap();
    assert_eq!((v1, v2), (1, 2));
    assert!(s.load_content_finish(id, v2, Ok(vec![2, 2])));
    assert!(!s.load_content_finish(id, v1, Ok(vec![1])));
    assert!(content_status(&s, id) == Status::Loaded);
    assert_eq!(content_bytes(&s, id), Some(vec![2, 2]));
}

#[test]
fn content_reload_keeps_bytes_until_it_completes() {
    let mut s = RepoFilesDetailsState::new();
    let id = s.create("r", "/a");
    let v1 = s.load_content_start(id).unwrap();
    s.load_content_finish(id, v1, Ok(vec![9]));
    let v2 = s.load_content_start(id).unwrap();
    assert!(content_status(&s, id) == Status::Reloading);
    assert_eq!(content_bytes(&s, id), Some(vec![9]));
    assert!(s.load_content_finish(id, v2, Err(GetFilesReaderError::Transport)));
    assert!(content_status(&s, id) == Status::Error { error: GetFilesReaderError::Transport });
    assert_eq!(content_bytes(&s, id), None);
}

#[test]
fn completions_after_destroy_are_ignored() {
    let mut s = RepoFilesDetailsState::new();
    let mut mounts = MountSubscriptions::new();
    let id = s.create("r", "/a");
    let other = s.create("r", "/b");
    s.load_files_start(id);
    let v = s.load_content_start(id).unwrap();
    s.destroy(id, &mut mounts);
    assert!(!s.details.contains_key(&id));
    assert_eq!(s.load_files_finish(id, Ok(String::from("m")), &mut mounts), None);
    assert!(!s.load_content_finish(id, v, Ok(vec![1])));
    assert_eq!(s.load_content_start(id), None);
    assert!(!s.load_files_start(id));
    assert!(!s.details.contains_key(&id));
    assert_eq!(mounts.holders(&String::from("m")), 0);
    assert!(s.details.contains_key(&other));
    assert_eq!(s.details.len(), 1);
}

#[test]
fn push_reload_supersedes_inflight_content() {
    let mut s = RepoFilesDetailsState::new();
    let mut mounts = MountSubscriptions::new();
    let key = String::from("m");
    let id = s.create("repo", "/a");
    assert!(s.load_files_start(id));
    assert_eq!(s.load_files_finish(id, Ok(key.clone()), &mut mounts), Some(true));
    let v1 = s.load_content_start(id).unwrap();
    let push = s.on_mount_changed(id, &key, "/a");
    assert!(push.load_files);
    let v2 = push.content_version.unwrap();
    assert!(v2 > v1);
    assert!(s.details[&id].status == Status::Reloading);
    assert_eq!(s.load_files_finish(id, Ok(key.clone()), &mut mounts), Some(false));
    assert!(s.load_content_finish(id, v2, Ok(b"second".to_vec())));
    assert!(!s.load_content_finish(id, v1, Ok(b"first".to_vec())));
    assert!(content_status(&s, id) == Status::Loaded);
    assert_eq!(content_bytes(&s, id), Some(b"second".to_vec()));
    assert_eq!(mounts.holders(&key), 1);
}

#[test]
fn push_for_other_paths_or_mounts_is_ignored() {
    let mut s = RepoFilesDetailsState::new();
    let mut mounts = MountSubscriptions::new();
    let key = String::from("m");
    let id = s.create("repo", "/a/b");
    let none = s.on_mount_changed(id, &key, "/a");
    assert!(!none.load_files);
    s.load_files_start(id);
    s.load_files_finish(id, Ok(key.clone()), &mut mounts);
    assert!(!s.on_mount_changed(id, &String::from("other"), "/a").load_files);
    assert!(!s.on_mount_changed(id, &key, "/c").load_files);
    assert!(!s.on_mount_changed(id, &key, "/a/bc").load_files);
    let parent = s.on_mount_changed(id, &key, "/a");
    assert!(parent.load_files);
    assert_eq!(parent.content_version, None);
}

#[test]
fn path_affected_respects_components() {
    assert!(path_affected("/a", "/a"));
    assert!(path_affected("/a", "/a/b"));
    assert!(path_affected("/", "/a"));
    assert!(path_affected("/a/", "/a/b"));
    assert!(!path_affected("/a", "/ab"));
    assert!(!path_affected("/a/b", "/a"));
    assert!(path_affected("", "/a"));
}

#[test]
fn status_transitions() {
    let s: Status<u8> = Status::default();
    assert!(s == Status::Initial);
    assert!(s.started() == Status::Loading);
    assert!(Status::<u8>::Loaded.started() == Status::Reloading);
    assert!(Status::<u8>::Reloading.started() == Status::Reloading);
    assert!(Status::Error { error: 3u8 }.started() == Status::Loading);
    assert!(Status::finished(Err(4u8)) == Status::Error { error: 4 });
    assert!(Status::<u8>::finished(Ok(())) == Status::Loaded);
    assert!(Status::<u8>::Loaded.has_value());
    assert!(!Status::<u8>::Loading.has_value());
}

#[test]
fn info_reflects_instance_state() {
    let mut s = RepoFilesDetailsState::new();
    let mut mounts = MountSubscriptions::new();
    let id = s.create("repo", "/docs/a.txt");
    s.load_files_start(id);
    s.load_files_finish(id, Err(LoadFilesError::AccessDenied), &mut mounts);
    let info = s.info(id);
    assert_eq!(info.repo_id, Some("repo"));
    assert_eq!(info.path, Some("/docs/a.txt"));
    assert!(info.status == Status::Error { error: LoadFilesError::AccessDenied });
    assert!(info.content_status == Status::Initial);
    let gone = s.info(id + 1);
    assert_eq!(gone.repo_id, None);
    assert!(gone.status == Status::Initial);
}
