//! The events that flow between the editor, the file watcher and the compile
//! actor.

use vstd::prelude::*;

use crate::paths::path_set;

verus! {

/// The paths that `inserts` gives a content to.
pub open spec fn inserted_path_set(inserts: Seq<(String, Vec<u8>)>) -> Set<Seq<char>> {
    Set::new(
        |p: Seq<char>| exists|i: int| 0 <= i < inserts.len() && (#[trigger] inserts[i]).0@ == p,
    )
}

/// Adding an insert at the end adds its path to the set.
pub proof fn lemma_inserted_path_set_push(inserts: Seq<(String, Vec<u8>)>, insert: (String, Vec<u8>))
    ensures
        inserted_path_set(inserts.push(insert)) == inserted_path_set(inserts).insert(insert.0@),
{
    let grown = inserts.push(insert);
    assert forall|p: Seq<char>| inserted_path_set(grown).contains(p) == inserted_path_set(
        inserts,
    ).insert(insert.0@).contains(p) by {
        if inserted_path_set(grown).contains(p) {
            let i = choose|i: int| 0 <= i < grown.len() && (#[trigger] grown[i]).0@ == p;
            if i < inserts.len() {
                assert(inserts[i].0@ == p);
            }
        }
        if inserted_path_set(inserts).contains(p) {
            let i = choose|i: int| 0 <= i < inserts.len() && (#[trigger] inserts[i]).0@ == p;
            assert(grown[i].0@ == p);
        }
        if p == insert.0@ {
            assert(grown[inserts.len() as int].0@ == p);
        }
    }
    assert(inserted_path_set(grown) =~= inserted_path_set(inserts).insert(insert.0@));
}

/// A set of changes to files: paths that went away, and paths with their new
/// content.
#[derive(Debug, Clone, PartialEq, Eq)]
pub struct FileChangeSet {
    /// The paths that were removed.
    pub removes: Vec<String>,
    /// The paths that were written, each with its content.
    pub inserts: Vec<(String, Vec<u8>)>,
}

impl FileChangeSet {
    /// The set of removed paths.
    pub open spec fn removed_paths(self) -> Set<Seq<char>> {
        path_set(self.removes@)
    }

    /// The set of written paths.
    pub open spec fn inserted_paths(self) -> Set<Seq<char>> {
        inserted_path_set(self.inserts@)
    }

    /// A change set that only removes.
    pub fn new_removes(removes: Vec<String>) -> (changes: Self)
        ensures
            changes.removes == removes,
            changes.inserts@.len() == 0,
    {
        FileChangeSet { removes, inserts: Vec::new() }
    }

    /// A change set that only writes.
    pub fn new_inserts(inserts: Vec<(String, Vec<u8>)>) -> (changes: Self)
        ensures
            changes.inserts == inserts,
            changes.removes@.len() == 0,
    {
        FileChangeSet { removes: Vec::new(), inserts }
    }

    /// Whether the set changes nothing.
    pub fn is_empty(&self) -> (empty: bool)
        ensures
            empty == (self.removes@.len() == 0 && self.inserts@.len() == 0),
    {
        self.removes.len() == 0 && self.inserts.len() == 0
    }
}

/// An edit that comes from memory, such as an editor's unsaved buffers.
#[derive(Debug, Clone, PartialEq, Eq)]
pub enum MemoryEvent {
    /// Replace the whole set of shadowed files by the inserts.
    Sync(FileChangeSet),
    /// Change the set of shadowed files by the removes and the inserts.
    Update(FileChangeSet),
}

impl MemoryEvent {
    /// The changes that the event carries.
    pub open spec fn spec_changes(self) -> FileChangeSet {
        match self {
            MemoryEvent::Sync(changes) => changes,
            MemoryEvent::Update(changes) => changes,
        }
    }

    /// The changes that the event carries.
    pub fn changes(&self) -> (changes: &FileChangeSet)
        ensures
            *changes == self.spec_changes(),
    {
        match self {
            MemoryEvent::Sync(changes) => changes,
            MemoryEvent::Update(changes) => changes,
        }
    }

    /// Whether the event replaces the whole shadow set.
    pub fn is_sync(&self) -> (sync: bool)
        ensures
            sync == (*self is Sync),
    {
        match self {
            MemoryEvent::Sync(_) => true,
            MemoryEvent::Update(_) => false,
        }
    }
}

/// A memory event stamped with the logical tick at which the actor sent it
/// upstream.
#[derive(Debug, Clone, PartialEq, Eq)]
pub struct TaggedMemoryEvent {
    /// The logical tick at which the event was sent upstream.
    pub logical_tick: usize,
    /// The memory event itself.
    pub event: MemoryEvent,
}

/// A memory edit on its way through the file watcher, which orders it among
/// its own events and hands it back.
#[derive(Debug, Clone, PartialEq, Eq)]
pub struct UpstreamUpdateEvent {
    /// The paths whose watched state the edit invalidates.
    pub invalidates: Vec<String>,
    /// The edit that travels with the update and comes back unchanged.
    pub opaque: TaggedMemoryEvent,
}

/// What the file watcher reports.
#[derive(Debug, Clone, PartialEq, Eq)]
pub enum FilesystemEvent {
    /// Files changed on disk.
    Update(FileChangeSet),
    /// An upstream update comes back, with the changes on disk that the
    /// watcher saw for the invalidated paths.
    UpstreamUpdate {
        /// The changes on disk.
        changeset: FileChangeSet,
        /// The update that comes back; `None` once the actor has taken it.
        upstream_event: Option<UpstreamUpdateEvent>,
    },
}

/// What the actor tells the file watcher.
#[derive(Debug, Clone, PartialEq, Eq)]
pub enum NotifyMessage {
    /// The files that the last compilation read.
    SyncDependency(Vec<String>),
    /// A memory edit to be ordered among the watcher's events.
    UpstreamUpdate(UpstreamUpdateEvent),
}

/// What can interrupt the actor. `T` is a task to run on the actor.
#[derive(Debug, PartialEq, Eq)]
pub enum CompilerInterrupt<T> {
    /// A task that borrows the actor.
    Task(T),
    /// A memory edit.
    Memory(MemoryEvent),
    /// A report of the file watcher; `None` says that its first scan is done.
    Fs(Option<FilesystemEvent>),
}

} // verus!
