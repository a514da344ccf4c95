//! Resources that the projects of a host share: each is made once, counted by its users, and
//! dropped with the last of them.

use crate::path::HostPath;
use vstd::prelude::*;

verus! {

/// What a shared resource is known by.
pub trait ResourceKey: Sized {
    /// Whether two keys stand for the same resource.
    spec fn same(&self, other: &Self) -> bool;

    /// Keys that are the same go together: the relation is an equivalence.
    proof fn same_is_an_equivalence(a: &Self, b: &Self, c: &Self)
        ensures
            a.same(a),
            a.same(b) ==> b.same(a),
            a.same(b) && b.same(c) ==> a.same(c),
    ;

    /// Whether two keys stand for the same resource.
    fn is_same(&self, other: &Self) -> (result: bool)
        ensures
            result == self.same(other),
    ;
}

impl ResourceKey for HostPath {
    open spec fn same(&self, other: &Self) -> bool {
        crate::path::same_path(self@, other@)
    }

    proof fn same_is_an_equivalence(a: &Self, b: &Self, c: &Self) {
    }

    fn is_same(&self, other: &Self) -> (result: bool) {
        HostPath::is_same(self, other)
    }
}

/// A buffer, known by its worktree and its path within it.
#[derive(Debug)]
pub struct BufferKey {
    pub worktree_id: u64,
    pub path: String,
}

impl ResourceKey for BufferKey {
    open spec fn same(&self, other: &Self) -> bool {
        self.worktree_id == other.worktree_id && self.path@ == other.path@
    }

    proof fn same_is_an_equivalence(a: &Self, b: &Self, c: &Self) {
    }

    fn is_same(&self, other: &Self) -> (result: bool) {
        self.worktree_id == other.worktree_id && self.path == other.path
    }
}

/// A shared resource, by its number among the host's own objects.
#[derive(Clone, Copy, Debug, PartialEq, Eq, Structural)]
pub struct ResourceHandle {
    pub value: u64,
}

/// A resource and how many use it.
#[derive(Debug)]
pub struct SharedResource<Key> {
    pub key: Key,
    pub value: ResourceHandle,
    pub users: usize,
}

/// The shared resources of one kind.
#[derive(Debug)]
pub struct SharedResources<Key> {
    pub entries: Vec<SharedResource<Key>>,
}

impl<Key: ResourceKey> SharedResources<Key> {
    /// Every resource has a user, and none is there twice.
    pub open spec fn well_formed(&self) -> bool {
        &&& forall|i: int| 0 <= i < self.entries@.len() ==> (#[trigger] self.entries@[i]).users > 0
        &&& forall|i: int, j: int|
            0 <= i < j < self.entries@.len() ==> !(#[trigger] self.entries@[i]).key.same(
                &(#[trigger] self.entries@[j]).key,
            )
    }

    /// Whether a resource is there.
    pub open spec fn holds(&self, key: &Key) -> bool {
        exists|i: int| 0 <= i < self.entries@.len() && (#[trigger] self.entries@[i]).key.same(key)
    }

    /// Where a resource is.
    pub open spec fn index_of(&self, key: &Key) -> int {
        choose|i: int| 0 <= i < self.entries@.len() && (#[trigger] self.entries@[i]).key.same(key)
    }

    /// How many use a resource.
    pub open spec fn users_of(&self, key: &Key) -> nat {
        if self.holds(key) {
            self.entries@[self.index_of(key)].users as nat
        } else {
            0
        }
    }

    /// The resource that a key stands for.
    pub open spec fn value_of(&self, key: &Key) -> Option<ResourceHandle> {
        if self.holds(key) {
            Some(self.entries@[self.index_of(key)].value)
        } else {
            None
        }
    }

    /// Whether a table is another with one more user of a resource.
    pub open spec fn acquired(before: &Self, after: &Self, key: &Key) -> bool {
        &&& forall|other: &Key| #[trigger]
            after.users_of(other) == before.users_of(other) + if other.same(key) {
                1int
            } else {
                0
            }
        &&& forall|other: &Key|
            !other.same(key) || before.holds(other) ==> #[trigger] after.value_of(other)
                == before.value_of(other)
    }

    /// Whether a table is another with one user less of a resource, if it had any.
    pub open spec fn released(before: &Self, after: &Self, key: &Key) -> bool {
        forall|other: &Key| #[trigger]
            after.users_of(other) == (if other.same(key) && before.users_of(other) > 0 {
                (before.users_of(other) - 1) as nat
            } else {
                before.users_of(other)
            }) && (after.users_of(other) > 0 ==> after.value_of(other) == before.value_of(other))
    }

    /// Releasing a resource undoes acquiring it: every resource has the users that it had, and
    /// those that are in use are the same as before.
    pub proof fn law_release_undoes_acquire(before: &Self, between: &Self, after: &Self, key: &Key)
        requires
            before.well_formed(),
            Self::acquired(before, between, key),
            Self::released(between, after, key),
        ensures
            forall|other: &Key| #[trigger] after.users_of(other) == before.users_of(other),
            forall|other: &Key|
                before.users_of(other) > 0 ==> #[trigger] after.value_of(other)
                    == before.value_of(other),
    {
        assert forall|other: &Key| #[trigger] after.users_of(other) == before.users_of(other) by {
            assert(between.users_of(other) >= before.users_of(other));
        }
        assert forall|other: &Key| before.users_of(other) > 0 implies #[trigger] after.value_of(
            other,
        ) == before.value_of(other) by {
            assert(after.users_of(other) == before.users_of(other));
            assert(between.value_of(other) == before.value_of(other));
        }
    }

    /// In a well-formed table a key is found at one place only.
    proof fn lemma_index(&self, key: &Key, index: int)
        requires
            self.well_formed(),
            0 <= index < self.entries@.len(),
            self.entries@[index].key.same(key),
        ensures
            self.holds(key),
            self.index_of(key) == index,
    {
        let found = self.index_of(key);
        assert(0 <= found < self.entries@.len() && self.entries@[found].key.same(key));
        Key::same_is_an_equivalence(key, &self.entries@[index].key, key);
        Key::same_is_an_equivalence(&self.entries@[index].key, key, &self.entries@[found].key);
        Key::same_is_an_equivalence(&self.entries@[found].key, key, &self.entries@[index].key);
        Key::same_is_an_equivalence(&self.entries@[found].key, key, key);
        Key::same_is_an_equivalence(&self.entries@[index].key, key, key);
    }

    /// No resources.
    pub fn new() -> (resources: Self)
        ensures
            resources.well_formed(),
            resources.entries@.len() == 0,
            forall|key: &Key| !resources.holds(key),
    {
        SharedResources { entries: Vec::new() }
    }

    fn find(&self, key: &Key) -> (result: Option<usize>)
        ensures
            match result {
                Some(index) => index < self.entries@.len() && self.entries@[index as int].key.same(
                    key,
                ),
                None => !self.holds(key),
            },
    {
        let mut i: usize = 0;
        while i < self.entries.len()
            invariant
                i <= self.entries@.len(),
                forall|k: int| 0 <= k < i ==> !(#[trigger] self.entries@[k]).key.same(key),
            decreases self.entries@.len() - i,
        {
            if self.entries[i].key.is_same(key) {
                return Some(i);
            }
            i += 1;
        }
        None
    }

    /// Adds a user to a resource that is there.
    pub fn acquire_existing(&mut self, key: &Key) -> (result: Option<ResourceHandle>)
        requires
            old(self).well_formed(),
            old(self).users_of(key) < usize::MAX,
        ensures
            final(self).well_formed(),
            result == old(self).value_of(key),
            match result {
                Some(_) => Self::acquired(&*old(self), &*final(self), key) && forall|other: &Key|
                    #[trigger] final(self).value_of(other) == old(self).value_of(other),
                None => *final(self) == *old(self),
            },
    {
        match self.find(key) {
            Some(index) => {
                proof {
                    self.lemma_index(key, index as int);
                }
                let ghost before = *self;
                let users: usize = self.entries[index].users;
                self.entries[index].users = users + 1;
                proof {
                    self.lemma_users_changed(&before, index as int, key);
                    assert forall|other: &Key| #[trigger] self.value_of(other) == before.value_of(
                        other,
                    ) by {
                        assert(self.users_of(other) >= 0);
                    }
                }
                Some(self.entries[index].value)
            },
            None => None,
        }
    }

    /// Changing the users of one resource changes no other.
    proof fn lemma_users_changed(&self, before: &Self, index: int, key: &Key)
        requires
            before.well_formed(),
            0 <= index < before.entries@.len(),
            before.entries@[index].key.same(key),
            self.entries@.len() == before.entries@.len(),
            forall|i: int|
                0 <= i < self.entries@.len() && i != index ==> (#[trigger] self.entries@[i])
                    == before.entries@[i],
            self.entries@[index].key == before.entries@[index].key,
            self.entries@[index].value == before.entries@[index].value,
            self.entries@[index].users > 0,
        ensures
            self.well_formed(),
            forall|other: &Key| #[trigger]
                self.users_of(other) == (if other.same(key) {
                    self.entries@[index].users as nat
                } else {
                    before.users_of(other)
                }) && self.value_of(other) == before.value_of(other) && (other.same(key) ==>
                    before.users_of(other) == before.entries@[index].users),
    {
        assert forall|i: int, j: int| 0 <= i < j < self.entries@.len() implies !(
        #[trigger] self.entries@[i]).key.same(&(#[trigger] self.entries@[j]).key) by {
            assert(self.entries@[i].key == before.entries@[i].key);
            assert(self.entries@[j].key == before.entries@[j].key);
        }
        assert forall|i: int| 0 <= i < self.entries@.len() implies (#[trigger] self.entries@[
            i]).users > 0 by {
            if i != index {
                assert(self.entries@[i] == before.entries@[i]);
            }
        }
        assert(self.well_formed());
        assert forall|other: &Key| #[trigger]
            self.users_of(other) == (if other.same(key) {
                self.entries@[index].users as nat
            } else {
                before.users_of(other)
            }) && self.value_of(other) == before.value_of(other) && (other.same(key) ==>
                before.users_of(other) == before.entries@[index].users) by {
            Key::same_is_an_equivalence(other, key, &self.entries@[index].key);
            Key::same_is_an_equivalence(&self.entries@[index].key, key, other);
            Key::same_is_an_equivalence(key, other, &self.entries@[index].key);
            Key::same_is_an_equivalence(&self.entries@[index].key, other, key);
            Key::same_is_an_equivalence(other, &self.entries@[index].key, key);
            if other.same(key) {
                assert(self.entries@[index].key.same(other));
                self.lemma_index(other, index);
                before.lemma_index(other, index);
            } else {
                assert(!self.entries@[index].key.same(other));
                if before.holds(other) {
                    let at = before.index_of(other);
                    assert(before.entries@[at].key.same(other));
                    assert(at != index);
                    assert(self.entries@[at] == before.entries@[at]);
                    self.lemma_index(other, at);
                } else if self.holds(other) {
                    let at = self.index_of(other);
                    assert(self.entries@[at].key.same(other));
                    assert(before.entries@[at].key.same(other));
                }
            }
        }
    }

    /// Adds a user to a resource, making it where it is not there yet. Nothing is made where it is:
    /// `create` may be called only for a resource that is absent.
    pub fn acquire<F: FnOnce() -> ResourceHandle>(&mut self, key: Key, create: F) -> (value:
        ResourceHandle)
        requires
            old(self).well_formed(),
            old(self).users_of(&key) < usize::MAX,
            old(self).value_of(&key) is None ==> create.requires(()),
        ensures
            final(self).well_formed(),
            match old(self).value_of(&key) {
                Some(known) => value == known,
                None => create.ensures((), value),
            },
            final(self).value_of(&key) == Some(value),
            Self::acquired(&*old(self), &*final(self), &key),
    {
        match self.acquire_existing(&key) {
            Some(value) => {
                proof {
                    Key::same_is_an_equivalence(&key, &key, &key);
                    assert(self.users_of(&key) == old(self).users_of(&key) + 1);
                }
                value
            },
            None => {
                let value = create();
                self.insert_new(key, value);
                value
            },
        }
    }

    /// Adds a resource with its first user.
    fn insert_new(&mut self, key: Key, value: ResourceHandle)
        requires
            old(self).well_formed(),
            !old(self).holds(&key),
        ensures
            final(self).well_formed(),
            final(self).value_of(&key) == Some(value),
            Self::acquired(&*old(self), &*final(self), &key),
    {
        let ghost before = *self;
        self.entries.push(SharedResource { key, value, users: 1 });
        proof {
            let last = before.entries@.len() as int;
            Key::same_is_an_equivalence(&key, &key, &key);
            assert(!before.holds(&key));
            assert forall|i: int, j: int| 0 <= i < j < self.entries@.len() implies !(
            #[trigger] self.entries@[i]).key.same(&(#[trigger] self.entries@[j]).key) by {
                assert(self.entries@[i] == before.entries@[i]);
                if j < last {
                    assert(self.entries@[j] == before.entries@[j]);
                }
            }
            assert(self.well_formed());
            self.lemma_index(&key, last);
            assert forall|other: &Key|
                (#[trigger] self.users_of(other) == before.users_of(other) + if other.same(
                    &key,
                ) {
                    1int
                } else {
                    0
                }) && (!other.same(&key) ==> self.value_of(other) == before.value_of(other)) by {
                self.lemma_pushed(&before, other);
            }
            assert forall|other: &Key|
                !other.same(&key) || before.holds(other) implies #[trigger] self.value_of(
                other,
            ) == before.value_of(other) by {
                self.lemma_pushed(&before, other);
            }
        }
    }

    proof fn lemma_pushed(&self, before: &Self, other: &Key)
        requires
            before.well_formed(),
            self.well_formed(),
            self.entries@.len() == before.entries@.len() + 1,
            forall|i: int|
                0 <= i < before.entries@.len() ==> (#[trigger] self.entries@[i])
                    == before.entries@[i],
            self.entries@.last().users == 1,
            !before.holds(&self.entries@.last().key),
        ensures
            self.users_of(other) == before.users_of(other) + if other.same(
                &self.entries@.last().key,
            ) {
                1int
            } else {
                0
            },
            !other.same(&self.entries@.last().key) || before.holds(other) ==> self.value_of(other)
                == before.value_of(other),
    {
        let last = before.entries@.len() as int;
        let key = self.entries@[last].key;
        Key::same_is_an_equivalence(other, &key, other);
        Key::same_is_an_equivalence(&key, other, &key);
        if other.same(&key) {
            self.lemma_index(other, last);
            if before.holds(other) {
                let at = before.index_of(other);
                assert(before.entries@[at].key.same(other));
                Key::same_is_an_equivalence(&before.entries@[at].key, other, &key);
                assert(before.entries@[at].key.same(&key));
            }
        } else {
            if before.holds(other) {
                let at = before.index_of(other);
                assert(before.entries@[at].key.same(other));
                assert(self.entries@[at] == before.entries@[at]);
                self.lemma_index(other, at);
            } else if self.holds(other) {
                let at = self.index_of(other);
                assert(self.entries@[at].key.same(other));
                if at < last {
                    assert(before.entries@[at] == self.entries@[at]);
                }
            }
        }
    }

    /// Takes a user from a resource, dropping it with the last one. A resource that is not there
    /// is left alone.
    pub fn release(&mut self, key: &Key)
        requires
            old(self).well_formed(),
        ensures
            final(self).well_formed(),
            Self::released(&*old(self), &*final(self), key),
    {
        match self.find(key) {
            None => {
                assert forall|other: &Key| other.same(key) implies !(#[trigger] self.holds(other)) by {
                    if self.holds(other) {
                        let at = self.index_of(other);
                        assert(self.entries@[at].key.same(other));
                        Key::same_is_an_equivalence(&self.entries@[at].key, other, key);
                        assert(self.entries@[at].key.same(key));
                    }
                }
            },
            Some(index) => {
                let ghost before = *self;
                proof {
                    before.lemma_index(key, index as int);
                }
                let users: usize = self.entries[index].users;
                if users > 1 {
                    self.entries[index].users = users - 1;
                    proof {
                        self.lemma_users_changed(&before, index as int, key);
                    }
                } else {
                    let dropped = self.entries.remove(index);
                    proof {
                        self.lemma_dropped(&before, index as int, key);
                    }
                }
            },
        }
    }

    proof fn lemma_dropped(&self, before: &Self, index: int, key: &Key)
        requires
            before.well_formed(),
            0 <= index < before.entries@.len(),
            before.entries@[index].key.same(key),
            before.entries@[index].users == 1,
            self.entries@ == before.entries@.remove(index),
        ensures
            self.well_formed(),
            forall|other: &Key| #[trigger]
                self.users_of(other) == (if other.same(key) {
                    0
                } else {
                    before.users_of(other)
                }) && (!other.same(key) ==> self.value_of(other) == before.value_of(other)) && (
                other.same(key) ==> before.users_of(other) == 1),
    {
        assert forall|i: int, j: int| 0 <= i < j < self.entries@.len() implies !(
        #[trigger] self.entries@[i]).key.same(&(#[trigger] self.entries@[j]).key) by {
            let a = if i < index {
                i
            } else {
                i + 1
            };
            let b = if j < index {
                j
            } else {
                j + 1
            };
            assert(self.entries@[i] == before.entries@[a]);
            assert(self.entries@[j] == before.entries@[b]);
        }
        assert forall|i: int| 0 <= i < self.entries@.len() implies (#[trigger] self.entries@[
            i]).users > 0 by {
            let a = if i < index {
                i
            } else {
                i + 1
            };
            assert(self.entries@[i] == before.entries@[a]);
        }
        assert(self.well_formed());
        assert forall|other: &Key| #[trigger]
            self.users_of(other) == (if other.same(key) {
                0
            } else {
                before.users_of(other)
            }) && (!other.same(key) ==> self.value_of(other) == before.value_of(other)) && (
            other.same(key) ==> before.users_of(other) == 1) by {
            let gone = before.entries@[index].key;
            Key::same_is_an_equivalence(other, key, &gone);
            Key::same_is_an_equivalence(&gone, key, other);
            Key::same_is_an_equivalence(other, key, other);
            Key::same_is_an_equivalence(&gone, other, key);
            Key::same_is_an_equivalence(key, other, key);
            Key::same_is_an_equivalence(&gone, key, key);
            Key::same_is_an_equivalence(other, &gone, key);
            Key::same_is_an_equivalence(&gone, other, other);
            if other.same(key) {
                before.lemma_index(other, index);
            }
            if self.holds(other) {
                let at = self.index_of(other);
                assert(self.entries@[at].key.same(other));
                let was = if at < index {
                    at
                } else {
                    at + 1
                };
                assert(self.entries@[at] == before.entries@[was]);
                before.lemma_index(other, was);
            } else if before.holds(other) && !other.same(key) {
                let was = before.index_of(other);
                assert(before.entries@[was].key.same(other));
                assert(was != index);
                let at = if was < index {
                    was
                } else {
                    was - 1
                };
                assert(self.entries@[at] == before.entries@[was]);
                assert(self.holds(other));
            }
        }
    }

    /// How many users all resources have.
    pub open spec fn total_users(&self) -> nat {
        sum_users(self.entries@.map_values(|entry: SharedResource<Key>| entry.users))
    }

    /// Counts the users of all resources.
    pub fn count_users(&self) -> (total: usize)
        requires
            self.total_users() <= usize::MAX,
        ensures
            total == self.total_users(),
    {
        let ghost counts = self.entries@.map_values(|entry: SharedResource<Key>| entry.users);
        let mut total: usize = 0;
        let mut i: usize = 0;
        assert(counts.take(0) =~= Seq::<usize>::empty());
        assert(counts.take(counts.len() as int) =~= counts);
        while i < self.entries.len()
            invariant
                i <= self.entries@.len() == counts.len(),
                counts == self.entries@.map_values(|entry: SharedResource<Key>| entry.users),
                total == sum_users(counts.take(i as int)),
                sum_users(counts) <= usize::MAX,
            decreases self.entries@.len() - i,
        {
            proof {
                assert(counts.take(i + 1).drop_last() =~= counts.take(i as int));
                assert(counts.take(i + 1).last() == self.entries@[i as int].users);
                lemma_sum_prefix(counts, i + 1);
            }
            total = total + self.entries[i].users;
            i += 1;
        }
        assert(counts.take(i as int) =~= counts);
        total
    }
}

/// The sum of a list of user counts.
pub open spec fn sum_users(counts: Seq<usize>) -> nat
    decreases counts.len(),
{
    if counts.len() == 0 {
        0
    } else {
        sum_users(counts.drop_last()) + counts.last() as nat
    }
}

proof fn lemma_sum_prefix(counts: Seq<usize>, length: int)
    requires
        0 <= length <= counts.len(),
    ensures
        sum_users(counts.take(length)) <= sum_users(counts),
    decreases counts.len() - length,
{
    if length == counts.len() {
        assert(counts.take(length) =~= counts);
    } else {
        assert(counts.take(length + 1).drop_last() =~= counts.take(length));
        lemma_sum_prefix(counts, length + 1);
    }
}

/// The identity of a repository on its host.
#[derive(Clone, Copy, Debug, PartialEq, Eq, Structural)]
pub struct RepositoryId {
    pub value: u64,
}

/// The resources that the projects of a host share.
#[derive(Debug)]
pub struct HostResourceRegistry {
    pub worktrees: SharedResources<HostPath>,
    pub buffers: SharedResources<BufferKey>,
    pub repositories: SharedResources<HostPath>,
    pub next_repository: u64,
}

impl HostResourceRegistry {
    /// Each table is well formed.
    pub open spec fn well_formed(&self) -> bool {
        self.worktrees.well_formed() && self.buffers.well_formed()
            && self.repositories.well_formed()
    }

    /// Adds a user to the worktree at a path, making it where there is none, and only there.
    pub fn acquire_worktree<F: FnOnce() -> ResourceHandle>(
        &mut self,
        path: HostPath,
        create: F,
    ) -> (value: ResourceHandle)
        requires
            old(self).well_formed(),
            old(self).worktrees.users_of(&path) < usize::MAX,
            old(self).worktrees.value_of(&path) is None ==> create.requires(()),
        ensures
            final(self).well_formed(),
            match old(self).worktrees.value_of(&path) {
                Some(known) => value == known,
                None => create.ensures((), value),
            },
            final(self).worktrees.value_of(&path) == Some(value),
            SharedResources::acquired(&old(self).worktrees, &final(self).worktrees, &path),
            final(self).buffers == old(self).buffers,
            final(self).repositories == old(self).repositories,
            final(self).next_repository == old(self).next_repository,
    {
        self.worktrees.acquire(path, create)
    }

    /// Takes a user from the worktree at a path.
    pub fn release_worktree(&mut self, path: &HostPath)
        requires
            old(self).well_formed(),
        ensures
            final(self).well_formed(),
            SharedResources::released(&old(self).worktrees, &final(self).worktrees, path),
            final(self).buffers == old(self).buffers,
            final(self).repositories == old(self).repositories,
            final(self).next_repository == old(self).next_repository,
    {
        self.worktrees.release(path);
    }

    /// Adds a user to a buffer, making it where there is none.
    pub fn acquire_buffer<F: FnOnce() -> ResourceHandle>(
        &mut self,
        worktree_id: u64,
        path: String,
        create: F,
    ) -> (value: ResourceHandle)
        requires
            old(self).well_formed(),
            old(self).buffers.users_of(&(BufferKey { worktree_id, path })) < usize::MAX,
            old(self).buffers.value_of(&(BufferKey { worktree_id, path })) is None
                ==> create.requires(()),
        ensures
            final(self).well_formed(),
            match old(self).buffers.value_of(&(BufferKey { worktree_id, path })) {
                Some(known) => value == known,
                None => create.ensures((), value),
            },
            final(self).buffers.value_of(&(BufferKey { worktree_id, path })) == Some(value),
            SharedResources::acquired(
                &old(self).buffers,
                &final(self).buffers,
                &(BufferKey { worktree_id, path }),
            ),
            final(self).worktrees == old(self).worktrees,
            final(self).repositories == old(self).repositories,
            final(self).next_repository == old(self).next_repository,
    {
        self.buffers.acquire(BufferKey { worktree_id, path }, create)
    }

    /// Takes a user from a buffer.
    pub fn release_buffer(&mut self, worktree_id: u64, path: String)
        requires
            old(self).well_formed(),
        ensures
            final(self).well_formed(),
            SharedResources::released(
                &old(self).buffers,
                &final(self).buffers,
                &(BufferKey { worktree_id, path }),
            ),
            final(self).worktrees == old(self).worktrees,
            final(self).repositories == old(self).repositories,
            final(self).next_repository == old(self).next_repository,
    {
        let key = BufferKey { worktree_id, path };
        self.buffers.release(&key);
    }

    /// Adds a user to the repository with a common directory, if there is one.
    pub fn repository(&mut self, common_directory: &HostPath) -> (result: Option<ResourceHandle>)
        requires
            old(self).well_formed(),
            old(self).repositories.users_of(common_directory) < usize::MAX,
        ensures
            final(self).well_formed(),
            result == old(self).repositories.value_of(common_directory),
            match result {
                Some(_) => SharedResources::acquired(
                    &old(self).repositories,
                    &final(self).repositories,
                    common_directory,
                ),
                None => final(self).repositories == old(self).repositories,
            },
            final(self).worktrees == old(self).worktrees,
            final(self).buffers == old(self).buffers,
            final(self).next_repository == old(self).next_repository,
    {
        self.repositories.acquire_existing(common_directory)
    }

    /// Adds a user to the repository with a common directory, which is the given one where there
    /// was none, and returns the one that is shared.
    pub fn insert_repository(
        &mut self,
        common_directory: &HostPath,
        repository: ResourceHandle,
    ) -> (value: ResourceHandle)
        requires
            old(self).well_formed(),
            old(self).repositories.users_of(common_directory) < usize::MAX,
        ensures
            final(self).well_formed(),
            value == match old(self).repositories.value_of(common_directory) {
                Some(known) => known,
                None => repository,
            },
            final(self).repositories.value_of(common_directory) == Some(value),
            SharedResources::acquired(
                &old(self).repositories,
                &final(self).repositories,
                common_directory,
            ),
            final(self).worktrees == old(self).worktrees,
            final(self).buffers == old(self).buffers,
            final(self).next_repository == old(self).next_repository,
    {
        match self.repositories.acquire_existing(common_directory) {
            Some(known) => {
                assert(self.repositories.value_of(common_directory) == old(
                    self,
                ).repositories.value_of(common_directory));
                known
            },
            None => {
                self.repositories.insert_new(common_directory.clone(), repository);
                repository
            },
        }
    }

    /// Takes a user from the repository with a common directory.
    pub fn release_repository(&mut self, common_directory: &HostPath)
        requires
            old(self).well_formed(),
        ensures
            final(self).well_formed(),
            SharedResources::released(
                &old(self).repositories,
                &final(self).repositories,
                common_directory,
            ),
            final(self).worktrees == old(self).worktrees,
            final(self).buffers == old(self).buffers,
            final(self).next_repository == old(self).next_repository,
    {
        self.repositories.release(common_directory);
    }

    /// A repository identity that follows the last one.
    pub fn next_repository_id(&mut self) -> (id: RepositoryId)
        ensures
            id.value == old(self).next_repository,
            final(self).next_repository == (if old(self).next_repository == u64::MAX {
                0int
            } else {
                old(self).next_repository + 1
            }),
            final(self).worktrees == old(self).worktrees,
            final(self).buffers == old(self).buffers,
            final(self).repositories == old(self).repositories,
    {
        let id = RepositoryId { value: self.next_repository };
        self.next_repository = self.next_repository.wrapping_add(1);
        id
    }

    /// How many users the worktrees, the buffers and the repositories have.
    pub fn resource_user_counts_for_test(&self) -> (counts: (usize, usize, usize))
        requires
            self.worktrees.total_users() <= usize::MAX,
            self.buffers.total_users() <= usize::MAX,
            self.repositories.total_users() <= usize::MAX,
        ensures
            counts.0 == self.worktrees.total_users(),
            counts.1 == self.buffers.total_users(),
            counts.2 == self.repositories.total_users(),
    {
        (self.worktrees.count_users(), self.buffers.count_users(), self.repositories.count_users())
    }
}

impl Default for HostResourceRegistry {
    fn default() -> (registry: Self)
        ensures
            registry.well_formed(),
            registry.worktrees.entries@.len() == 0,
            registry.buffers.entries@.len() == 0,
            registry.repositories.entries@.len() == 0,
            registry.next_repository == 1,
    {
        HostResourceRegistry {
            worktrees: SharedResources::new(),
            buffers: SharedResources::new(),
            repositories: SharedResources::new(),
            next_repository: 1,
        }
    }
}

} // verus!
