//! The memory-only view of task snapshots that the desktop projection reads.

use vstd::prelude::*;

use crate::knowledge_workflow::types::{TaskKey, TaskSnapshot};

verus! {

/// A resident key and what was materialized for it. `shown` is `None` until
/// then; an inner `None` means that the key has no task.
#[derive(Debug)]
pub struct ResidentEntry {
    key: TaskKey,
    shown: Option<Option<TaskSnapshot>>,
}

/// The keys that somebody watches, each once.
#[derive(Debug)]
pub struct KnowledgeProjectionState {
    entries: Vec<ResidentEntry>,
}

fn same_key(a: TaskKey, b: TaskKey) -> (r: bool)
    ensures
        r == (a == b),
{
    a.kind == b.kind && a.target_id == b.target_id
}

impl KnowledgeProjectionState {
    /// No key stands twice.
    pub closed spec fn wf(&self) -> bool {
        forall|i: int, j: int|
            0 <= i < self.entries@.len() && 0 <= j < self.entries@.len() && (
            #[trigger] self.entries@[i]).key == (#[trigger] self.entries@[j]).key ==> i == j
    }

    pub closed spec fn resident(&self, key: TaskKey) -> bool {
        exists|i: int| 0 <= i < self.entries@.len() && (#[trigger] self.entries@[i]).key == key
    }

    /// What was materialized for the key, if anything.
    pub closed spec fn shown(&self, key: TaskKey) -> Option<Option<TaskSnapshot>> {
        if self.resident(key) {
            self.entries@[choose|i: int|
                0 <= i < self.entries@.len() && (#[trigger] self.entries@[i]).key == key].shown
        } else {
            None
        }
    }

    /// A key that nobody watches shows nothing.
    pub proof fn only_residents_are_shown(&self, key: TaskKey)
        ensures
            self.shown(key) is Some ==> self.resident(key),
    {
    }

    proof fn lemma_shown(&self, i: int)
        requires
            self.wf(),
            0 <= i < self.entries@.len(),
        ensures
            self.resident(self.entries@[i].key),
            self.shown(self.entries@[i].key) == self.entries@[i].shown,
    {
    }

    pub fn new() -> (r: KnowledgeProjectionState)
        ensures
            r.wf(),
            forall|key: TaskKey| !r.resident(key),
    {
        KnowledgeProjectionState { entries: Vec::new() }
    }

    fn position(&self, key: TaskKey) -> (r: Option<usize>)
        ensures
            match r {
                Some(i) => i < self.entries@.len() && self.entries@[i as int].key == key,
                None => !self.resident(key),
            },
    {
        let mut i: usize = 0;
        while i < self.entries.len()
            invariant
                i <= self.entries.len(),
                forall|k: int| 0 <= k < i ==> (#[trigger] self.entries@[k]).key != key,
            decreases self.entries.len() - i,
        {
            if same_key(self.entries[i].key, key) {
                return Some(i);
            }
            i += 1;
        }
        None
    }

    pub fn is_resident(&self, key: TaskKey) -> (r: bool)
        ensures
            r == self.resident(key),
    {
        self.position(key).is_some()
    }

    /// The resident keys, each once.
    pub fn residents(&self) -> (r: Vec<TaskKey>)
        requires
            self.wf(),
        ensures
            forall|key: TaskKey| r@.contains(key) <==> self.resident(key),
            r@.no_duplicates(),
    {
        let mut r: Vec<TaskKey> = Vec::new();
        let mut i: usize = 0;
        while i < self.entries.len()
            invariant
                i <= self.entries.len(),
                r@.len() == i,
                forall|k: int| 0 <= k < i ==> #[trigger] r@[k] == self.entries@[k].key,
            decreases self.entries.len() - i,
        {
            r.push(self.entries[i].key);
            i += 1;
        }
        proof {
            assert forall|key: TaskKey| r@.contains(key) <==> self.resident(key) by {
                if r@.contains(key) {
                    let k = choose|k: int| 0 <= k < r@.len() && r@[k] == key;
                    assert(self.entries@[k].key == key);
                }
                if self.resident(key) {
                    let k = choose|k: int|
                        0 <= k < self.entries@.len() && (#[trigger] self.entries@[k]).key == key;
                    assert(r@[k] == key);
                }
            }
            assert forall|i: int, j: int|
                0 <= i < r@.len() && 0 <= j < r@.len() && i != j implies r@[i] != r@[j] by {
                assert(self.entries@[i].key == r@[i] && self.entries@[j].key == r@[j]);
            }
        }
        r
    }

    pub fn snapshot(&self, key: TaskKey) -> (r: Option<&Option<TaskSnapshot>>)
        requires
            self.wf(),
        ensures
            match r {
                Some(shown) => self.shown(key) == Some(*shown),
                None => self.shown(key) is None,
            },
    {
        match self.position(key) {
            None => None,
            Some(i) => {
                proof {
                    self.lemma_shown(i as int);
                }
                match &self.entries[i].shown {
                    Some(shown) => Some(shown),
                    None => None,
                }
            },
        }
    }

    /// Makes a key resident. `true` where it was not before: the engine is
    /// then asked to materialize it.
    pub fn observe(&mut self, key: TaskKey) -> (r: bool)
        requires
            old(self).wf(),
        ensures
            final(self).wf(),
            r == !old(self).resident(key),
            forall|k: TaskKey|
                #[trigger] final(self).resident(k) == (old(self).resident(k) || k == key),
            forall|k: TaskKey| #[trigger] final(self).shown(k) == old(self).shown(k),
    {
        if self.is_resident(key) {
            return false;
        }
        let ghost before = *self;
        self.entries.push(ResidentEntry { key, shown: None });
        proof {
            let m = before.entries@.len() as int;
            assert(self.entries@[m].key == key);
            assert forall|i: int| 0 <= i < m implies self.entries@[i]
                == #[trigger] before.entries@[i] by {}
            assert(self.wf());
            assert forall|k: TaskKey| #[trigger]
                self.resident(k) == (before.resident(k) || k == key) by {
                if before.resident(k) {
                    let i = choose|i: int|
                        0 <= i < before.entries@.len() && (#[trigger] before.entries@[i]).key == k;
                    assert(self.entries@[i].key == k);
                }
            }
            assert forall|k: TaskKey| #[trigger] self.shown(k) == before.shown(k) by {
                if before.resident(k) {
                    let i = choose|i: int|
                        0 <= i < before.entries@.len() && (#[trigger] before.entries@[i]).key == k;
                    before.lemma_shown(i);
                    self.lemma_shown(i);
                } else if k == key {
                    self.lemma_shown(m);
                } else {
                    assert(!self.resident(k));
                }
            }
        }
        true
    }

    pub fn forget(&mut self, key: TaskKey)
        requires
            old(self).wf(),
        ensures
            final(self).wf(),
            forall|k: TaskKey|
                #[trigger] final(self).resident(k) == (old(self).resident(k) && k != key),
            forall|k: TaskKey|
                #[trigger] final(self).shown(k) == (if k == key {
                    None
                } else {
                    old(self).shown(k)
                }),
    {
        let ghost before = *self;
        match self.position(key) {
            None => {},
            Some(at) => {
                let removed = self.entries.remove(at);
                proof {
                    let at = at as int;
                    assert(self.entries@ =~= before.entries@.remove(at));
                    assert forall|i: int| 0 <= i < self.entries@.len() implies #[trigger] self.entries@[i]
                        == before.entries@[if i < at {
                        i
                    } else {
                        i + 1
                    }] by {}
                    assert(self.wf()) by {
                        assert forall|i: int, j: int|
                            0 <= i < self.entries@.len() && 0 <= j < self.entries@.len() && (
                            #[trigger] self.entries@[i]).key == (
                            #[trigger] self.entries@[j]).key implies i == j by {
                            let x = if i < at {
                                i
                            } else {
                                i + 1
                            };
                            let y = if j < at {
                                j
                            } else {
                                j + 1
                            };
                            assert(before.entries@[x].key == before.entries@[y].key);
                        }
                    }
                    assert forall|k: TaskKey| #[trigger]
                        self.resident(k) == (before.resident(k) && k != key) by {
                        if self.resident(k) {
                            let i = choose|i: int|
                                0 <= i < self.entries@.len() && (#[trigger] self.entries@[i]).key
                                    == k;
                            let x = if i < at {
                                i
                            } else {
                                i + 1
                            };
                            assert(before.entries@[x].key == k);
                            assert(before.entries@[at].key == key);
                        }
                        if before.resident(k) && k != key {
                            let x = choose|x: int|
                                0 <= x < before.entries@.len() && (
                                #[trigger] before.entries@[x]).key == k;
                            let i = if x < at {
                                x
                            } else {
                                x - 1
                            };
                            assert(self.entries@[i].key == k);
                        }
                    }
                    assert forall|k: TaskKey| #[trigger] self.shown(k) == (if k == key {
                        None
                    } else {
                        before.shown(k)
                    }) by {
                        assert(self.resident(k) == (before.resident(k) && k != key));
                        if self.resident(k) {
                            let i = choose|i: int|
                                0 <= i < self.entries@.len() && (#[trigger] self.entries@[i]).key
                                    == k;
                            let x = if i < at {
                                i
                            } else {
                                i + 1
                            };
                            self.lemma_shown(i);
                            before.lemma_shown(x);
                        }
                    }
                }
            },
        }
    }

    /// Materializes a resident key; `true` where its watchers are to be told.
    /// What was read for a key that was forgotten meanwhile is dropped.
    pub fn publish(&mut self, key: TaskKey, snapshot: Option<TaskSnapshot>) -> (r: bool)
        requires
            old(self).wf(),
        ensures
            final(self).wf(),
            r == old(self).resident(key),
            forall|k: TaskKey| #[trigger] final(self).resident(k) == old(self).resident(k),
            forall|k: TaskKey|
                #[trigger] final(self).shown(k) == (if k == key && r {
                    Some(snapshot)
                } else {
                    old(self).shown(k)
                }),
    {
        let ghost before = *self;
        match self.position(key) {
            None => false,
            Some(at) => {
                self.entries.set(at, ResidentEntry { key, shown: Some(snapshot) });
                proof {
                    let at = at as int;
                    assert forall|i: int| 0 <= i < before.entries@.len() implies (
                    #[trigger] self.entries@[i]).key == before.entries@[i].key by {}
                    assert(self.wf()) by {
                        assert forall|i: int, j: int|
                            0 <= i < self.entries@.len() && 0 <= j < self.entries@.len() && (
                            #[trigger] self.entries@[i]).key == (
                            #[trigger] self.entries@[j]).key implies i == j by {
                            assert(before.entries@[i].key == before.entries@[j].key);
                        }
                    }
                    assert forall|k: TaskKey| #[trigger]
                        self.resident(k) == before.resident(k) by {
                        if before.resident(k) {
                            let i = choose|i: int|
                                0 <= i < before.entries@.len() && (
                                #[trigger] before.entries@[i]).key == k;
                            assert(self.entries@[i].key == k);
                        }
                        if self.resident(k) {
                            let i = choose|i: int|
                                0 <= i < self.entries@.len() && (#[trigger] self.entries@[i]).key
                                    == k;
                            assert(before.entries@[i].key == k);
                        }
                    }
                    assert forall|k: TaskKey| #[trigger] self.shown(k) == (if k == key {
                        Some(snapshot)
                    } else {
                        before.shown(k)
                    }) by {
                        assert(self.resident(k) == before.resident(k));
                        if self.resident(k) {
                            let i = choose|i: int|
                                0 <= i < self.entries@.len() && (#[trigger] self.entries@[i]).key
                                    == k;
                            self.lemma_shown(i);
                            before.lemma_shown(i);
                            if k == key {
                                self.lemma_shown(at);
                            } else {
                                assert(i != at);
                            }
                        }
                    }
                }
                true
            },
        }
    }

    /// Forgets what was materialized. The watched keys stay.
    pub fn clear_materialized(&mut self)
        requires
            old(self).wf(),
        ensures
            final(self).wf(),
            forall|k: TaskKey| #[trigger] final(self).resident(k) == old(self).resident(k),
            forall|k: TaskKey| #[trigger] final(self).shown(k) is None,
    {
        let ghost before = *self;
        let mut i: usize = 0;
        while i < self.entries.len()
            invariant
                i <= self.entries.len(),
                self.entries@.len() == before.entries@.len(),
                forall|k: int|
                    0 <= k < before.entries@.len() ==> (#[trigger] self.entries@[k]).key
                        == before.entries@[k].key,
                forall|k: int| 0 <= k < i ==> (#[trigger] self.entries@[k]).shown is None,
            decreases self.entries.len() - i,
        {
            let key = self.entries[i].key;
            self.entries.set(i, ResidentEntry { key, shown: None });
            i += 1;
        }
        proof {
            assert(self.wf()) by {
                assert forall|i: int, j: int|
                    0 <= i < self.entries@.len() && 0 <= j < self.entries@.len() && (
                    #[trigger] self.entries@[i]).key == (
                    #[trigger] self.entries@[j]).key implies i == j by {
                    assert(before.entries@[i].key == before.entries@[j].key);
                }
            }
            assert forall|k: TaskKey| #[trigger] self.resident(k) == before.resident(k) by {
                if before.resident(k) {
                    let i = choose|i: int|
                        0 <= i < before.entries@.len() && (#[trigger] before.entries@[i]).key == k;
                    assert(self.entries@[i].key == k);
                }
                if self.resident(k) {
                    let i = choose|i: int|
                        0 <= i < self.entries@.len() && (#[trigger] self.entries@[i]).key == k;
                    assert(before.entries@[i].key == k);
                }
            }
            assert forall|k: TaskKey| #[trigger] self.shown(k) is None by {
                if self.resident(k) {
                    let i = choose|i: int|
                        0 <= i < self.entries@.len() && (#[trigger] self.entries@[i]).key == k;
                    self.lemma_shown(i);
                }
            }
        }
    }
}

} // verus!
