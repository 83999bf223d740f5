use vstd::prelude::*;

verus! {

/// The holder counts after one more holder subscribes to `key`.
pub open spec fn spec_subscribe(m: Map<Seq<char>, nat>, key: Seq<char>) -> Map<Seq<char>, nat> {
    if m.contains_key(key) {
        m.insert(key, m[key] + 1)
    } else {
        m.insert(key, 1)
    }
}

/// The holder counts after one holder of `key` releases it; a key whose
/// count reaches zero leaves the map.
pub open spec fn spec_release(m: Map<Seq<char>, nat>, key: Seq<char>) -> Map<Seq<char>, nat> {
    if !m.contains_key(key) {
        m
    } else if m[key] <= 1 {
        m.remove(key)
    } else {
        m.insert(key, (m[key] - 1) as nat)
    }
}

/// Whether subscribing to `key` has to open an underlying push channel.
pub open spec fn spec_opens(m: Map<Seq<char>, nat>, key: Seq<char>) -> bool {
    !m.contains_key(key)
}

/// Whether releasing `key` has to close its underlying push channel.
pub open spec fn spec_closes(m: Map<Seq<char>, nat>, key: Seq<char>) -> bool {
    m.contains_key(key) && m[key] <= 1
}

/// The holder counts after `n` subscriptions to `key`.
pub open spec fn subscribe_n(m: Map<Seq<char>, nat>, key: Seq<char>, n: nat) -> Map<Seq<char>, nat>
    decreases n,
{
    if n == 0 {
        m
    } else {
        spec_subscribe(subscribe_n(m, key, (n - 1) as nat), key)
    }
}

/// The holder counts after `n` releases of `key`.
pub open spec fn release_n(m: Map<Seq<char>, nat>, key: Seq<char>, n: nat) -> Map<Seq<char>, nat>
    decreases n,
{
    if n == 0 {
        m
    } else {
        spec_release(release_n(m, key, (n - 1) as nat), key)
    }
}

proof fn lemma_subscribe_n_count(m: Map<Seq<char>, nat>, key: Seq<char>, n: nat)
    requires
        !m.contains_key(key),
    ensures
        n > 0 ==> subscribe_n(m, key, n).contains_key(key) && subscribe_n(m, key, n)[key] == n,
        n == 0 ==> !subscribe_n(m, key, n).contains_key(key),
    decreases n,
{
    if n > 0 {
        lemma_subscribe_n_count(m, key, (n - 1) as nat);
    }
}

proof fn lemma_release_n_count(m: Map<Seq<char>, nat>, key: Seq<char>, total: nat, n: nat)
    requires
        m.contains_key(key),
        m[key] == total,
        total > 0,
        n <= total,
    ensures
        n < total ==> release_n(m, key, n).contains_key(key) && release_n(m, key, n)[key] == total - n,
        n == total ==> !release_n(m, key, n).contains_key(key),
    decreases n,
{
    if n > 0 {
        lemma_release_n_count(m, key, total, (n - 1) as nat);
    }
}

/// Holders of one mount key share a single push channel: among `n`
/// subscriptions only the first opens it; releasing all holders but one never
/// closes it; the last release closes it; a later subscription opens a new one.
pub proof fn lemma_mount_refcount(m: Map<Seq<char>, nat>, key: Seq<char>, n: nat)
    requires
        !m.contains_key(key),
        n >= 1,
    ensures
        spec_opens(m, key),
        forall|i: nat| 0 < i < n ==> !spec_opens(#[trigger] subscribe_n(m, key, i), key),
        subscribe_n(m, key, n)[key] == n,
        forall|i: nat|
            i < n - 1 ==> !spec_closes(#[trigger] release_n(subscribe_n(m, key, n), key, i), key),
        spec_closes(release_n(subscribe_n(m, key, n), key, (n - 1) as nat), key),
        !release_n(subscribe_n(m, key, n), key, n).contains_key(key),
        spec_opens(release_n(subscribe_n(m, key, n), key, n), key),
{
    lemma_subscribe_n_count(m, key, n);
    assert forall|i: nat| 0 < i < n implies !spec_opens(#[trigger] subscribe_n(m, key, i), key) by {
        lemma_subscribe_n_count(m, key, i);
    }
    let full = subscribe_n(m, key, n);
    assert forall|i: nat| i < n - 1 implies !spec_closes(#[trigger] release_n(full, key, i), key) by {
        lemma_release_n_count(full, key, n, i);
    }
    lemma_release_n_count(full, key, n, (n - 1) as nat);
    lemma_release_n_count(full, key, n, n);
}

pub struct MountEntry {
    pub key: String,
    pub holders: u64,
}

/// Reference-counted registry of live push subscriptions, one per mount key.
/// A key is in the registry exactly while its underlying channel is open.
pub struct MountSubscriptions {
    entries: Vec<MountEntry>,
    counts: Ghost<Map<Seq<char>, nat>>,
}

impl View for MountSubscriptions {
    type V = Map<Seq<char>, nat>;

    /// Number of holders of each mount key with an open channel.
    closed spec fn view(&self) -> Map<Seq<char>, nat> {
        self.counts@
    }
}

impl MountSubscriptions {
    pub closed spec fn wf(&self) -> bool {
        &&& forall|i: int, j: int|
            0 <= i < self.entries.len() && 0 <= j < self.entries.len() && i != j
                ==> (#[trigger] self.entries@[i]).key@ != (#[trigger] self.entries@[j]).key@
        &&& forall|i: int|
            0 <= i < self.entries.len() ==> self.counts@.contains_key(
                (#[trigger] self.entries@[i]).key@,
            ) && self.counts@[self.entries@[i].key@] == self.entries@[i].holders as nat
                && self.entries@[i].holders > 0
        &&& forall|k: Seq<char>|
            #[trigger] self.counts@.contains_key(k) ==> exists|i: int|
                0 <= i < self.entries.len() && (#[trigger] self.entries@[i]).key@ == k
    }

    pub fn new() -> (r: Self)
        ensures
            r.wf(),
            r@ == Map::<Seq<char>, nat>::empty(),
    {
        MountSubscriptions { entries: Vec::new(), counts: Ghost(Map::empty()) }
    }

    fn find(&self, key: &String) -> (r: Option<usize>)
        requires
            self.wf(),
        ensures
            match r {
                Some(i) => i < self.entries.len() && self.entries@[i as int].key@ == key@,
                None => !self@.contains_key(key@),
            },
    {
        let mut i: usize = 0;
        while i < self.entries.len()
            invariant
                0 <= i <= self.entries.len(),
                forall|k: int| 0 <= k < i ==> self.entries@[k].key@ != key@,
            decreases self.entries.len() - i,
        {
            if self.entries[i].key == *key {
                return Some(i);
            }
            i = i + 1;
        }
        None
    }

    /// Number of current holders of `key` (0 when no channel is open for it).
    pub fn holders(&self, key: &String) -> (r: u64)
        requires
            self.wf(),
        ensures
            self@.contains_key(key@) ==> r == self@[key@],
            !self@.contains_key(key@) ==> r == 0,
    {
        match self.find(key) {
            Some(i) => self.entries[i].holders,
            None => 0,
        }
    }

    /// Adds a holder of `key`; returns whether the caller has to open the
    /// underlying push channel (no holder existed).
    pub fn subscribe(&mut self, key: &String) -> (opened: bool)
        requires
            old(self).wf(),
            old(self)@.contains_key(key@) ==> old(self)@[key@] < u64::MAX,
        ensures
            final(self).wf(),
            final(self)@ == spec_subscribe(old(self)@, key@),
            opened == spec_opens(old(self)@, key@),
    {
        match self.find(key) {
            Some(i) => {
                let h = self.entries[i].holders;
                let ghost before = self.entries@;
                self.entries.set(i, MountEntry { key: key.clone(), holders: h + 1 });
                self.counts = Ghost(self.counts@.insert(key@, (h + 1) as nat));
                assert forall|j: int| 0 <= j < self.entries.len() && j != i implies (#[trigger] self.entries@[j]) == before[j] by {}
                assert forall|k: Seq<char>| #[trigger] self.counts@.contains_key(k) implies exists|j: int|
                    0 <= j < self.entries.len() && (#[trigger] self.entries@[j]).key@ == k by {
                    if k != key@ {
                        let j = choose|j: int| 0 <= j < before.len() && (#[trigger] before[j]).key@ == k;
                        assert(self.entries@[j] == before[j]);
                    } else {
                        assert(self.entries@[i as int].key@ == k);
                    }
                }
                false
            },
            None => {
                let ghost before = self.entries@;
                self.entries.push(MountEntry { key: key.clone(), holders: 1 });
                self.counts = Ghost(self.counts@.insert(key@, 1));
                assert forall|j: int| 0 <= j < before.len() implies (#[trigger] self.entries@[j]) == before[j] by {}
                assert forall|k: Seq<char>| #[trigger] self.counts@.contains_key(k) implies exists|j: int|
                    0 <= j < self.entries.len() && (#[trigger] self.entries@[j]).key@ == k by {
                    if k != key@ {
                        let j = choose|j: int| 0 <= j < before.len() && (#[trigger] before[j]).key@ == k;
                        assert(self.entries@[j] == before[j]);
                    } else {
                        assert(self.entries@[before.len() as int].key@ == k);
                    }
                }
                true
            },
        }
    }

    /// Drops a holder of `key`; returns whether the caller has to close the
    /// underlying push channel (it was the last holder). Releasing a key that
    /// nobody holds changes nothing.
    pub fn release(&mut self, key: &String) -> (closed: bool)
        requires
            old(self).wf(),
        ensures
            final(self).wf(),
            final(self)@ == spec_release(old(self)@, key@),
            closed == spec_closes(old(self)@, key@),
    {
        match self.find(key) {
            None => false,
            Some(i) => {
                let h = self.entries[i].holders;
                let ghost before = self.entries@;
                if h <= 1 {
                    self.entries.remove(i);
                    self.counts = Ghost(self.counts@.remove(key@));
                    assert forall|j: int| 0 <= j < self.entries.len() implies (#[trigger] self.entries@[j]) == (if j < i { before[j] } else { before[j + 1] }) by {}
                    assert forall|k: Seq<char>| #[trigger] self.counts@.contains_key(k) implies exists|j: int|
                        0 <= j < self.entries.len() && (#[trigger] self.entries@[j]).key@ == k by {
                        let j = choose|j: int| 0 <= j < before.len() && (#[trigger] before[j]).key@ == k;
                        assert(j != i);
                        if j < i {
                            assert(self.entries@[j] == before[j]);
                        } else {
                            assert(self.entries@[j - 1] == before[j]);
                        }
                    }
                    assert forall|a: int, b: int|
                        0 <= a < self.entries.len() && 0 <= b < self.entries.len() && a != b
                            implies (#[trigger] self.entries@[a]).key@ != (#[trigger] self.entries@[b]).key@ by {
                        let a2 = if a < i { a } else { a + 1 };
                        let b2 = if b < i { b } else { b + 1 };
                        assert(self.entries@[a] == before[a2] && self.entries@[b] == before[b2]);
                    }
                    assert forall|a: int| 0 <= a < self.entries.len() implies (#[trigger] self.entries@[a]).key@ != key@ by {
                        let a2 = if a < i { a } else { a + 1 };
                        assert(self.entries@[a] == before[a2]);
                    }
                    true
                } else {
                    self.entries.set(i, MountEntry { key: key.clone(), holders: h - 1 });
                    self.counts = Ghost(self.counts@.insert(key@, (h - 1) as nat));
                    assert forall|j: int| 0 <= j < self.entries.len() && j != i implies (#[trigger] self.entries@[j]) == before[j] by {}
                    assert forall|k: Seq<char>| #[trigger] self.counts@.contains_key(k) implies exists|j: int|
                        0 <= j < self.entries.len() && (#[trigger] self.entries@[j]).key@ == k by {
                        if k != key@ {
                            let j = choose|j: int| 0 <= j < before.len() && (#[trigger] before[j]).key@ == k;
                            assert(self.entries@[j] == before[j]);
                        } else {
                            assert(self.entries@[i as int].key@ == k);
                        }
                    }
                    false
                }
            },
        }
    }
}

} // verus!
