use vstd::prelude::*;

verus! {

/// What a listener is called back through when a mutation it subscribed to
/// has been committed.
pub trait Notifiable {
    fn invoke(&self);
}

/// The tags that a committed mutation touches.
#[derive(Clone, Copy, PartialEq, Eq, Debug, Structural)]
pub enum Event {
    Notifications,
    User,
    Repos,
    RepoCreate,
    RepoUnlock,
    RepoRemove,
    RepoConfigBackup,
    RepoSpaceUsage,
    RepoFiles,
    RepoFilesBrowsers,
    RepoFilesDetails,
    RepoFilesMove,
    Uploads,
}

pub struct Listener<C> {
    pub id: u32,
    pub events: Vec<Event>,
    pub callback: C,
}

/// Whether some tag of `a` occurs in `b`.
pub open spec fn intersects(a: Seq<Event>, b: Seq<Event>) -> bool {
    exists|j: int| 0 <= j < a.len() && #[trigger] b.contains(a[j])
}

fn contains_event(events: &Vec<Event>, e: Event) -> (r: bool)
    ensures
        r == events@.contains(e),
{
    let mut i: usize = 0;
    while i < events.len()
        invariant
            0 <= i <= events.len(),
            forall|k: int| 0 <= k < i ==> events@[k] != e,
        decreases events.len() - i,
    {
        if events[i] == e {
            return true;
        }
        i = i + 1;
    }
    false
}

fn intersects_exec(a: &[Event], b: &Vec<Event>) -> (r: bool)
    ensures
        r == intersects(a@, b@),
{
    let mut i: usize = 0;
    while i < a.len()
        invariant
            0 <= i <= a.len(),
            forall|k: int| 0 <= k < i ==> !b@.contains(a@[k]),
        decreases a.len() - i,
    {
        if contains_event(b, a[i]) {
            return true;
        }
        i = i + 1;
    }
    false
}

pub open spec fn registry_has(reg: Seq<(u32, Seq<Event>)>, id: u32) -> bool {
    exists|i: int| 0 <= i < reg.len() && (#[trigger] reg[i]).0 == id
}

pub open spec fn registry_listens(reg: Seq<(u32, Seq<Event>)>, id: u32, events: Seq<Event>) -> bool {
    exists|i: int| 0 <= i < reg.len() && (#[trigger] reg[i]) == (id, events)
}

pub open spec fn registry_notifies(reg: Seq<(u32, Seq<Event>)>, id: u32, events: Seq<Event>) -> bool {
    exists|i: int| 0 <= i < reg.len() && (#[trigger] reg[i]).0 == id && intersects(events, reg[i].1)
}

pub open spec fn registry_unique(reg: Seq<(u32, Seq<Event>)>) -> bool {
    forall|i: int, j: int|
        0 <= i < reg.len() && 0 <= j < reg.len() && i != j ==> (#[trigger] reg[i]).0 != (
        #[trigger] reg[j]).0
}

/// Removing the entry of one listener leaves every other listener as it was.
proof fn lemma_remove_frame(reg: Seq<(u32, Seq<Event>)>, i: int, id: u32)
    requires
        0 <= i < reg.len(),
        reg[i].0 == id,
        registry_unique(reg),
    ensures
        registry_unique(reg.remove(i)),
        !registry_has(reg.remove(i), id),
        forall|other: u32, e: Seq<Event>|
            other != id ==> (registry_listens(reg.remove(i), other, e) <==> registry_listens(
                reg,
                other,
                e,
            )),
        forall|other: u32, e: Seq<Event>|
            other != id ==> (registry_notifies(reg.remove(i), other, e) <==> registry_notifies(
                reg,
                other,
                e,
            )),
{
    let r = reg.remove(i);
    assert forall|k: int| 0 <= k < r.len() implies r[k] == (if k < i { reg[k] } else { reg[k + 1] }) by {}
    assert forall|a: int, b: int| 0 <= a < r.len() && 0 <= b < r.len() && a != b implies (
    #[trigger] r[a]).0 != (#[trigger] r[b]).0 by {
        let a2 = if a < i { a } else { a + 1 };
        let b2 = if b < i { b } else { b + 1 };
        assert(r[a] == reg[a2] && r[b] == reg[b2]);
    }
    if registry_has(r, id) {
        let k = choose|k: int| 0 <= k < r.len() && (#[trigger] r[k]).0 == id;
        let k2 = if k < i { k } else { k + 1 };
        assert(reg[k2].0 == id);
    }
    assert forall|other: u32, e: Seq<Event>| other != id implies (registry_listens(r, other, e)
        <==> registry_listens(reg, other, e)) && (registry_notifies(r, other, e)
        <==> registry_notifies(reg, other, e)) by {
        if registry_listens(reg, other, e) {
            let k = choose|k: int| 0 <= k < reg.len() && (#[trigger] reg[k]) == (other, e);
            let k2 = if k < i { k } else { k - 1 };
            assert(r[k2] == reg[k]);
        }
        if registry_listens(r, other, e) {
            let k = choose|k: int| 0 <= k < r.len() && (#[trigger] r[k]) == (other, e);
            let k2 = if k < i { k } else { k + 1 };
            assert(reg[k2] == r[k]);
        }
        if registry_notifies(reg, other, e) {
            let k = choose|k: int| 0 <= k < reg.len() && (#[trigger] reg[k]).0 == other && intersects(e, reg[k].1);
            let k2 = if k < i { k } else { k - 1 };
            assert(r[k2] == reg[k]);
        }
        if registry_notifies(r, other, e) {
            let k = choose|k: int| 0 <= k < r.len() && (#[trigger] r[k]).0 == other && intersects(e, r[k].1);
            let k2 = if k < i { k } else { k + 1 };
            assert(reg[k2] == r[k]);
        }
    }
}

/// Appending the entry of a listener not yet registered leaves every other
/// listener as it was.
proof fn lemma_push_frame(reg: Seq<(u32, Seq<Event>)>, id: u32, events: Seq<Event>)
    requires
        registry_unique(reg),
        !registry_has(reg, id),
    ensures
        registry_unique(reg.push((id, events))),
        registry_listens(reg.push((id, events)), id, events),
        forall|e: Seq<Event>| #[trigger] registry_listens(reg.push((id, events)), id, e) ==> e == events,
        forall|other: u32, e: Seq<Event>|
            other != id ==> (registry_listens(reg.push((id, events)), other, e) <==> registry_listens(
                reg,
                other,
                e,
            )),
        forall|other: u32, e: Seq<Event>|
            other != id ==> (registry_notifies(reg.push((id, events)), other, e) <==> registry_notifies(
                reg,
                other,
                e,
            )),
{
    let r = reg.push((id, events));
    let n = reg.len() as int;
    assert(r[n] == (id, events));
    assert forall|a: int, b: int| 0 <= a < r.len() && 0 <= b < r.len() && a != b implies (
    #[trigger] r[a]).0 != (#[trigger] r[b]).0 by {
        if a < n && b < n {
            assert(r[a] == reg[a] && r[b] == reg[b]);
        } else if a < n {
            assert(r[a] == reg[a]);
        } else if b < n {
            assert(r[b] == reg[b]);
        }
    }
    assert forall|e: Seq<Event>| #[trigger] registry_listens(r, id, e) implies e == events by {
        let k = choose|k: int| 0 <= k < r.len() && (#[trigger] r[k]) == (id, e);
        if k < n {
            assert(reg[k].0 == id);
        }
    }
    assert forall|other: u32, e: Seq<Event>| other != id implies (registry_listens(r, other, e)
        <==> registry_listens(reg, other, e)) && (registry_notifies(r, other, e)
        <==> registry_notifies(reg, other, e)) by {
        if registry_listens(reg, other, e) {
            let k = choose|k: int| 0 <= k < reg.len() && (#[trigger] reg[k]) == (other, e);
            assert(r[k] == reg[k]);
        }
        if registry_listens(r, other, e) {
            let k = choose|k: int| 0 <= k < r.len() && (#[trigger] r[k]) == (other, e);
            assert(reg[k] == r[k]);
        }
        if registry_notifies(reg, other, e) {
            let k = choose|k: int| 0 <= k < reg.len() && (#[trigger] reg[k]).0 == other && intersects(e, reg[k].1);
            assert(r[k] == reg[k]);
        }
        if registry_notifies(r, other, e) {
            let k = choose|k: int| 0 <= k < r.len() && (#[trigger] r[k]).0 == other && intersects(e, r[k].1);
            assert(reg[k] == r[k]);
        }
    }
}

/// The process-wide state container: the state tree, the id allocator and
/// the listener registry.
pub struct Store<S, C> {
    pub state: S,
    pub next_id: u32,
    pub listeners: Vec<Listener<C>>,
}

impl<S, C: Notifiable> Store<S, C> {
    /// The id that `get_next_id` hands out next; every id handed out so far
    /// lies below it.
    pub open spec fn spec_next_id(&self) -> u32 {
        self.next_id
    }

    /// The registry as (listener id, subscribed tags), in registration order.
    pub open spec fn registry(&self) -> Seq<(u32, Seq<Event>)> {
        self.listeners@.map_values(|l: Listener<C>| (l.id, l.events@))
    }

    pub open spec fn has_listener(&self, id: u32) -> bool {
        registry_has(self.registry(), id)
    }

    /// Whether listener `id` is registered with exactly the tags `events`.
    pub open spec fn listens(&self, id: u32, events: Seq<Event>) -> bool {
        registry_listens(self.registry(), id, events)
    }

    /// Whether a mutation touching `events` calls listener `id` back.
    pub open spec fn notifies(&self, id: u32, events: Seq<Event>) -> bool {
        registry_notifies(self.registry(), id, events)
    }

    /// Listener ids are unique.
    pub open spec fn wf(&self) -> bool {
        registry_unique(self.registry())
    }

    pub fn new(state: S) -> (r: Self)
        ensures
            r.wf(),
            r.state == state,
            r.spec_next_id() == 1,
            r.registry() == Seq::<(u32, Seq<Event>)>::empty(),
    {
        let r = Store { state, next_id: 1, listeners: Vec::new() };
        assert(r.registry() =~= Seq::<(u32, Seq<Event>)>::empty());
        r
    }

    /// Hands out a fresh id: each call returns a value that no earlier call
    /// returned.
    pub fn get_next_id(&mut self) -> (r: u32)
        requires
            old(self).spec_next_id() < u32::MAX,
        ensures
            r == old(self).spec_next_id(),
            final(self).spec_next_id() == r + 1,
            final(self).state == old(self).state,
            final(self).registry() == old(self).registry(),
    {
        let r = self.next_id;
        self.next_id = self.next_id + 1;
        r
    }

    fn find_listener(&self, id: u32) -> (r: Option<usize>)
        ensures
            match r {
                Some(i) => i < self.registry().len() && self.registry()[i as int].0 == id,
                None => !self.has_listener(id),
            },
    {
        let mut i: usize = 0;
        while i < self.listeners.len()
            invariant
                0 <= i <= self.listeners.len(),
                self.registry().len() == self.listeners.len(),
                forall|k: int| 0 <= k < i ==> self.registry()[k].0 != id,
            decreases self.listeners.len() - i,
        {
            if self.listeners[i].id == id {
                return Some(i);
            }
            i = i + 1;
        }
        None
    }

    /// Unregisters listener `id`; nothing happens when it is not registered.
    pub fn remove_listener(&mut self, id: u32)
        requires
            old(self).wf(),
        ensures
            final(self).wf(),
            !final(self).has_listener(id),
            forall|other: u32, events: Seq<Event>|
                other != id ==> (final(self).listens(other, events) <==> old(self).listens(
                    other,
                    events,
                )),
            forall|other: u32, events: Seq<Event>|
                other != id ==> (final(self).notifies(other, events) <==> old(self).notifies(
                    other,
                    events,
                )),
            final(self).state == old(self).state,
            final(self).spec_next_id() == old(self).spec_next_id(),
    {
        match self.find_listener(id) {
            None => {},
            Some(i) => {
                let ghost before = self.registry();
                self.listeners.remove(i);
                assert(self.registry() =~= before.remove(i as int));
                proof {
                    lemma_remove_frame(before, i as int, id);
                }
            },
        }
    }

    /// Registers `callback` under `id` for the tags `events`, replacing an
    /// earlier registration under the same id.
    pub fn on(&mut self, id: u32, events: &[Event], callback: C)
        requires
            old(self).wf(),
        ensures
            final(self).wf(),
            final(self).listens(id, events@),
            forall|e: Seq<Event>| #[trigger] final(self).listens(id, e) ==> e == events@,
            forall|other: u32, e: Seq<Event>|
                other != id ==> (final(self).listens(other, e) <==> old(self).listens(other, e)),
            forall|other: u32, e: Seq<Event>|
                other != id ==> (final(self).notifies(other, e) <==> old(self).notifies(other, e)),
            final(self).state == old(self).state,
            final(self).spec_next_id() == old(self).spec_next_id(),
    {
        self.remove_listener(id);
        let ghost before = self.registry();
        let mut tags: Vec<Event> = Vec::new();
        let mut i: usize = 0;
        while i < events.len()
            invariant
                0 <= i <= events.len(),
                tags@ == events@.subrange(0, i as int),
            decreases events.len() - i,
        {
            tags.push(events[i]);
            i = i + 1;
        }
        assert(tags@ =~= events@);
        self.listeners.push(Listener { id, events: tags, callback });
        assert(self.registry() =~= before.push((id, events@)));
        proof {
            lemma_push_frame(before, id, events@);
        }
    }

    /// Calls back every listener subscribed to a tag of `events`, once each,
    /// and returns their ids in registration order.
    pub fn notify(&self, events: &[Event]) -> (invoked: Vec<u32>)
        requires
            self.wf(),
        ensures
            forall|id: u32| invoked@.contains(id) <==> self.notifies(id, events@),
    {
        let mut invoked: Vec<u32> = Vec::new();
        let mut i: usize = 0;
        while i < self.listeners.len()
            invariant
                0 <= i <= self.listeners.len(),
                self.registry().len() == self.listeners.len(),
                forall|id: u32|
                    invoked@.contains(id) <==> exists|k: int|
                        0 <= k < i && (#[trigger] self.registry()[k]).0 == id && intersects(
                            events@,
                            self.registry()[k].1,
                        ),
            decreases self.listeners.len() - i,
        {
            let l = &self.listeners[i];
            assert(self.registry()[i as int] == (l.id, l.events@));
            if intersects_exec(events, &l.events) {
                l.callback.invoke();
                let ghost prev = invoked@;
                invoked.push(l.id);
                assert forall|id: u32|
                    invoked@.contains(id) <==> exists|k: int|
                        0 <= k < i + 1 && (#[trigger] self.registry()[k]).0 == id && intersects(
                            events@,
                            self.registry()[k].1,
                        ) by {
                    if invoked@.contains(id) && id != l.id {
                        assert(prev.contains(id));
                    }
                    if id == l.id {
                        assert(invoked@[invoked@.len() - 1] == id);
                    }
                    if exists|k: int|
                        0 <= k < i + 1 && (#[trigger] self.registry()[k]).0 == id && intersects(
                            events@,
                            self.registry()[k].1,
                        ) {
                        let k = choose|k: int|
                            0 <= k < i + 1 && (#[trigger] self.registry()[k]).0 == id
                                && intersects(events@, self.registry()[k].1);
                        if k < i {
                            assert(prev.contains(id));
                            let p = choose|p: int| 0 <= p < prev.len() && prev[p] == id;
                            assert(invoked@[p] == id);
                        } else {
                            assert(invoked@[invoked@.len() - 1] == id);
                        }
                    }
                };
            }
            i = i + 1;
        }
        invoked
    }

    /// Runs `f` on the current state and returns what it returns.
    pub fn with_state<F, R>(&self, f: F) -> (r: R)
        where
            F: FnOnce(&S) -> R,
        requires
            f.requires((&self.state,)),
        ensures
            f.ensures((&self.state,), r),
    {
        f(&self.state)
    }
}

/// A listener registered for `tag` is called back by a mutation touching
/// `tag`; once it has been removed, no mutation calls it back.
pub proof fn lemma_listener_invocation<S, C: Notifiable>(
    registered: Store<S, C>,
    removed: Store<S, C>,
    id: u32,
    tag: Event,
    events: Seq<Event>,
)
    requires
        registered.listens(id, seq![tag]),
        !removed.has_listener(id),
    ensures
        registered.notifies(id, seq![tag]),
        !removed.notifies(id, events),
{
    let i = choose|i: int|
        0 <= i < registered.registry().len() && (#[trigger] registered.registry()[i]) == (id, seq![tag]);
    assert(seq![tag].contains(seq![tag][0]));
    assert(intersects(seq![tag], registered.registry()[i].1));
}

} // verus!
