//! The context servers that are known by name, with a revision for each name.

use crate::text_map::TextMap;
use vstd::prelude::*;

verus! {

/// A description of a context server, by its number among the application's own objects.
#[derive(Clone, Copy, Debug, PartialEq, Eq, Structural)]
pub struct DescriptorHandle {
    pub value: u64,
}

/// The descriptions of context servers. Every registration and removal moves on the revision of
/// its name.
#[derive(Debug)]
pub struct ContextServerDescriptorRegistry {
    pub context_servers: TextMap<DescriptorHandle>,
    pub descriptor_revisions: TextMap<u64>,
}

/// The revision of a name: zero until something happens to it.
pub open spec fn revision_of(revisions: Map<Seq<char>, u64>, id: Seq<char>) -> u64 {
    if revisions.contains_key(id) {
        revisions[id]
    } else {
        0
    }
}

/// The revision after another, wrapping around at the end.
pub open spec fn next_revision(revision: u64) -> u64 {
    if revision == u64::MAX {
        0
    } else {
        (revision + 1) as u64
    }
}

/// Two revisions in a row differ.
pub proof fn law_revision_changes(revision: u64)
    ensures
        next_revision(revision) != revision,
{
}

impl ContextServerDescriptorRegistry {
    /// A registry that knows no server.
    pub fn new() -> (registry: Self)
        ensures
            registry.context_servers.spec_map() == Map::<Seq<char>, DescriptorHandle>::empty(),
            registry.descriptor_revisions.spec_map() == Map::<Seq<char>, u64>::empty(),
    {
        ContextServerDescriptorRegistry {
            context_servers: TextMap::new(),
            descriptor_revisions: TextMap::new(),
        }
    }

    /// The revision of a name.
    pub fn descriptor_revision(&self, id: &str) -> (revision: u64)
        ensures
            revision == revision_of(self.descriptor_revisions.spec_map(), id@),
    {
        match self.descriptor_revisions.get(id) {
            Some(revision) => revision,
            None => 0,
        }
    }

    /// All descriptions with their names, each name once.
    pub fn context_server_descriptors(&self) -> (list: Vec<(String, DescriptorHandle)>)
        ensures
            crate::text_map::map_of(list@) == self.context_servers.spec_map(),
            crate::text_map::keys_distinct(list@),
    {
        self.context_servers.entries()
    }

    /// The description of a server.
    pub fn context_server_descriptor(&self, id: &str) -> (descriptor: Option<DescriptorHandle>)
        ensures
            descriptor == if self.context_servers.spec_map().contains_key(id@) {
                Some(self.context_servers.spec_map()[id@])
            } else {
                None
            },
    {
        self.context_servers.get(id)
    }

    fn move_revision_on(&mut self, id: String)
        ensures
            final(self).context_servers == old(self).context_servers,
            final(self).descriptor_revisions.spec_map()
                == old(self).descriptor_revisions.spec_map().insert(
                id@,
                next_revision(revision_of(old(self).descriptor_revisions.spec_map(), id@)),
            ),
    {
        let revision: u64 = self.descriptor_revision(id.as_str());
        self.descriptor_revisions.insert(id, revision.wrapping_add(1));
    }

    /// Registers a description under a name, in place of an earlier one.
    pub fn register_context_server_descriptor(&mut self, id: String, descriptor: DescriptorHandle)
        ensures
            final(self).context_servers.spec_map() == old(self).context_servers.spec_map().insert(
                id@,
                descriptor,
            ),
            final(self).descriptor_revisions.spec_map()
                == old(self).descriptor_revisions.spec_map().insert(
                id@,
                next_revision(revision_of(old(self).descriptor_revisions.spec_map(), id@)),
            ),
    {
        self.context_servers.insert(id.clone(), descriptor);
        self.move_revision_on(id);
    }

    /// Removes the description under a name.
    pub fn unregister_context_server_descriptor_by_id(&mut self, server_id: &str)
        ensures
            final(self).context_servers.spec_map() == old(self).context_servers.spec_map().remove(
                server_id@,
            ),
            final(self).descriptor_revisions.spec_map()
                == old(self).descriptor_revisions.spec_map().insert(
                server_id@,
                next_revision(revision_of(old(self).descriptor_revisions.spec_map(), server_id@)),
            ),
    {
        self.context_servers.remove(server_id);
        self.move_revision_on(server_id.to_string());
    }
}

impl Default for ContextServerDescriptorRegistry {
    fn default() -> (registry: Self)
        ensures
            registry.context_servers.spec_map() == Map::<Seq<char>, DescriptorHandle>::empty(),
            registry.descriptor_revisions.spec_map() == Map::<Seq<char>, u64>::empty(),
    {
        Self::new()
    }
}

} // verus!
