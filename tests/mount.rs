use vault_core::mount::MountSubscriptions;

#[test]
fn mount_channel_is_shared_and_closed_by_last_holder() {
    let mut mounts = MountSubscriptions::new();
    let key = String::from("repo-1:mount-a");
    assert!(mounts.subscribe(&key));
    assert!(!mounts.subscribe(&key));
    assert!(!mounts.subscribe(&key));
    assert_eq!(mounts.holders(&key), 3);
    assert!(!mounts.release(&key));
    assert!(!mounts.release(&key));
    assert_eq!(mounts.holders(&key), 1);
    assert!(mounts.release(&key));
    assert_eq!(mounts.holders(&key), 0);
    assert!(mounts.subscribe(&key));
}

#[test]
fn mount_keys_are_independent() {
    let mut mounts = MountSubscriptions::new();
    let a = String::from("a");
    let b = String::from("b");
    assert!(mounts.subscribe(&a));
    assert!(mounts.subscribe(&b));
    assert!(mounts.release(&a));
    assert_eq!(mounts.holders(&b), 1);
}

#[test]
fn releasing_an_unheld_key_does_nothing() {
    let mut mounts = MountSubscriptions::new();
    let a = String::from("a");
    assert!(!mounts.release(&a));
    assert_eq!(mounts.holders(&a), 0);
}
