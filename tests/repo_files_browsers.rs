use vault_core::errors::LoadFilesError;
use vault_core::mount::MountSubscriptions;
use vault_core::repo_files_browsers::RepoFilesBrowsersState;
use vault_core::status::Status;

#[test]
fn browsers_lifecycle_shares_the_mount() {
    let mut s = RepoFilesBrowsersState::new();
    let mut mounts = MountSubscriptions::new();
    let key = String::from("m");
    let a = s.create("r", "/");
    let b = s.create("r", "/docs");
    assert_eq!((a, b), (0, 1));
    assert!(s.load_files_start(a));
    assert!(s.browsers[&a].status == Status::Loading);
    assert_eq!(s.load_files_finish(a, Ok(key.clone()), &mut mounts), Some(true));
    assert!(s.load_files_start(b));
    assert_eq!(s.load_files_finish(b, Ok(key.clone()), &mut mounts), Some(false));
    assert_eq!(mounts.holders(&key), 2);
    assert_eq!(s.destroy(a, &mut mounts), None);
    assert_eq!(s.destroy(b, &mut mounts), Some(key.clone()));
    assert_eq!(mounts.holders(&key), 0);
    assert_eq!(s.load_files_finish(a, Ok(key.clone()), &mut mounts), None);
    assert!(s.browsers.is_empty());
}

#[test]
fn browser_listing_error_and_selection() {
    let mut s = RepoFilesBrowsersState::new();
    let mut mounts = MountSubscriptions::new();
    let a = s.create("r", "/");
    s.browsers.get_mut(&a).unwrap().selection.push(String::from("f1"));
    s.load_files_start(a);
    assert_eq!(s.load_files_finish(a, Err(LoadFilesError::Decode), &mut mounts), Some(false));
    assert!(s.browsers[&a].status == Status::Error { error: LoadFilesError::Decode });
    assert_eq!(s.browsers[&a].selection, vec![String::from("f1")]);
    s.clear_selection(a);
    assert!(s.browsers[&a].selection.is_empty());
    assert!(s.browsers[&a].status == Status::Error { error: LoadFilesError::Decode });
    s.clear_selection(a + 7);
    assert_eq!(s.browsers.len(), 1);
}
