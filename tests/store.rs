use std::cell::Cell;
use std::rc::Rc;

use vault_core::store::{Event, Notifiable, Store};

struct Counter(Rc<Cell<u32>>);

impl Notifiable for Counter {
    fn invoke(&self) {
        self.0.set(self.0.get() + 1);
    }
}

fn counter() -> (Rc<Cell<u32>>, Counter) {
    let c = Rc::new(Cell::new(0));
    (c.clone(), Counter(c))
}

#[test]
fn store_ids_are_never_reused() {
    let mut store: Store<u32, Counter> = Store::new(7);
    let a = store.get_next_id();
    let b = store.get_next_id();
    let c = store.get_next_id();
    assert_eq!((a, b, c), (1, 2, 3));
    store.remove_listener(a);
    assert_eq!(store.get_next_id(), 4);
}

#[test]
fn listener_is_invoked_until_removed() {
    let mut store: Store<u32, Counter> = Store::new(0);
    let (seen, cb) = counter();
    let id = store.get_next_id();
    store.on(id, &[Event::RepoFilesDetails], cb);
    store.state = 1;
    assert_eq!(store.notify(&[Event::RepoFilesDetails]), vec![id]);
    assert_eq!(seen.get(), 1);
    store.remove_listener(id);
    store.state = 2;
    assert!(store.notify(&[Event::RepoFilesDetails]).is_empty());
    assert_eq!(seen.get(), 1);
}

#[test]
fn listener_ignores_other_tags() {
    let mut store: Store<u32, Counter> = Store::new(0);
    let (seen_a, a) = counter();
    let (seen_b, b) = counter();
    store.on(1, &[Event::Repos, Event::Notifications], a);
    store.on(2, &[Event::Uploads], b);
    assert_eq!(store.notify(&[Event::Notifications]), vec![1]);
    assert_eq!(store.notify(&[Event::Uploads, Event::Repos]), vec![1, 2]);
    assert!(store.notify(&[]).is_empty());
    assert_eq!((seen_a.get(), seen_b.get()), (2, 1));
}

#[test]
fn on_replaces_an_earlier_registration() {
    let mut store: Store<u32, Counter> = Store::new(0);
    let (seen_a, a) = counter();
    let (seen_b, b) = counter();
    store.on(5, &[Event::Repos], a);
    store.on(5, &[Event::Uploads], b);
    assert!(store.notify(&[Event::Repos]).is_empty());
    assert_eq!(store.notify(&[Event::Uploads]), vec![5]);
    assert_eq!((seen_a.get(), seen_b.get()), (0, 1));
}

#[test]
fn with_state_reads_the_state() {
    let store: Store<u32, Counter> = Store::new(41);
    assert_eq!(store.with_state(|s| *s + 1), 42);
}
