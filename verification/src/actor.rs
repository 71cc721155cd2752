//! The compile actor: the owner of the compiler, of the logical clock and of
//! the estimate of the shadowed files.
//!
//! The actor decides; the loop that drives it performs. Each interrupt is
//! handed to [`CompileActor::process`], which moves the actor to its next state
//! and returns the [`Reaction`] that the loop has to perform on the compiler or
//! send to the file watcher.

use std::sync::Arc;
use tokio::sync::mpsc::{UnboundedReceiver, UnboundedSender};
use typst::layout::PagedDocument;
use vstd::prelude::*;

use crate::channel::{clone_sender, try_receive};
use crate::client::CompileClient;
use crate::notify::{
    CompilerInterrupt,
    FilesystemEvent,
    MemoryEvent,
    NotifyMessage,
    TaggedMemoryEvent,
    UpstreamUpdateEvent,
};
use crate::paths::{distinct_paths, path_set, PathSet};
use crate::shadow::{estimate, estimated_after, invalidated_by};

verus! {

/// A compiled document of `typst`, carried through as an opaque value.
#[verifier::external_type_specification]
#[verifier::external_body]
pub struct ExPagedDocument(typst::layout::PagedDocument);

/// Calls `Arc::clone` of std: one more handle to the same document. Both
/// handles give the same document, which is what the contract claims.
#[verifier::external_body]
fn share_document(document: &Arc<PagedDocument>) -> (handle: Arc<PagedDocument>)
    ensures
        handle == *document,
{
    Arc::clone(document)
}

/// Calls `comemo::evict`, which removes from the global memoisation cache
/// every result whose age is `max_age` or more. The cache is outside the
/// library's state, so nothing is claimed.
#[verifier::external_body]
fn evict_cache(max_age: usize) {
    comemo::evict(max_age)
}

/// The number of cache generations after which a memoised result is evicted,
/// unless the actor was configured otherwise.
pub const DEFAULT_CACHE_EVICTION_THRESHOLD: usize = 30;

/// What the loop that drives the actor has to do after an interrupt.
#[derive(Debug, PartialEq, Eq)]
pub enum Reaction<T> {
    /// Run the task with the actor borrowed exclusively.
    RunTask(T),
    /// Project the memory event onto the compiler now.
    Apply(MemoryEvent),
    /// Send the message to the file watcher; the memory event in it is
    /// applied when it comes back.
    Defer(NotifyMessage),
    /// Project `apply` onto the compiler, if there is one, then hand `event`
    /// to the compiler, if there is one.
    Notify {
        /// The memory event that came back from the file watcher.
        apply: Option<MemoryEvent>,
        /// The file-system event for the compiler.
        event: Option<FilesystemEvent>,
    },
}

impl<T> Reaction<T> {
    /// Whether the reaction asks for a compilation at the end of the batch.
    /// A task never does, nor does a memory event that was sent upstream.
    pub open spec fn spec_needs_recompile(&self) -> bool {
        *self is Apply || *self is Notify
    }

    /// Whether the reaction asks for a compilation at the end of the batch.
    #[verifier::when_used_as_spec(spec_needs_recompile)]
    pub fn needs_recompile(&self) -> (needed: bool)
        ensures
            needed == self.spec_needs_recompile(),
    {
        match self {
            Reaction::RunTask(_) => false,
            Reaction::Apply(_) => true,
            Reaction::Defer(_) => false,
            Reaction::Notify { .. } => true,
        }
    }
}

/// How an actor runs.
#[derive(Debug, Clone, Copy, PartialEq, Eq, Structural)]
pub enum RunMode {
    /// The file system is not watched: compile once and say whether a
    /// document came of it.
    OneShot,
    /// The file system is watched: run the event loop on a thread of its
    /// own until every channel is closed.
    Watched,
    /// The file system is to be watched, but there is no asynchronous
    /// runtime to watch it in: do not run.
    Refused,
}

/// How an actor runs, by whether it watches and whether a runtime is there.
pub open spec fn run_mode_of(enable_watch: bool, in_runtime: bool) -> RunMode {
    if !enable_watch {
        RunMode::OneShot
    } else if in_runtime {
        RunMode::Watched
    } else {
        RunMode::Refused
    }
}

/// The interrupt that is taken first, given what each of the three channels
/// had ready: a report of the file watcher before a memory event, and a
/// memory event before a task.
pub open spec fn preferred<T>(
    fs: Option<Option<FilesystemEvent>>,
    memory: Option<MemoryEvent>,
    task: Option<T>,
) -> Option<CompilerInterrupt<T>> {
    match fs {
        Some(event) => Some(CompilerInterrupt::Fs(event)),
        None => match memory {
            Some(event) => Some(CompilerInterrupt::Memory(event)),
            None => match task {
                Some(task) => Some(CompilerInterrupt::Task(task)),
                None => None,
            },
        },
    }
}

/// The interrupt that is taken first, given what each of the three channels
/// had ready. What a channel of lower rank had ready is dropped where one of
/// higher rank had something: ask a channel only where those before it gave
/// nothing.
pub fn prefer<T>(
    fs: Option<Option<FilesystemEvent>>,
    memory: Option<MemoryEvent>,
    task: Option<T>,
) -> (event: Option<CompilerInterrupt<T>>)
    ensures
        event == preferred(fs, memory, task),
{
    match fs {
        Some(event) => Some(CompilerInterrupt::Fs(event)),
        None => match memory {
            Some(event) => Some(CompilerInterrupt::Memory(event)),
            None => match task {
                Some(task) => Some(CompilerInterrupt::Task(task)),
                None => None,
            },
        },
    }
}

/// Whether at most one of the three channels gave something, as it is when
/// a channel is asked only where those before it gave nothing.
pub open spec fn asked_in_turn<T>(
    fs: Option<Option<FilesystemEvent>>,
    memory: Option<MemoryEvent>,
    task: Option<T>,
) -> bool {
    &&& fs is Some ==> memory is None && task is None
    &&& memory is Some ==> task is None
}

/// The interrupt that was taken from the channels, which were asked in
/// turn: the one answer that there is, if there is one. Nothing that a
/// channel gave is dropped.
pub fn taken_in_turn<T>(
    fs: Option<Option<FilesystemEvent>>,
    memory: Option<MemoryEvent>,
    task: Option<T>,
) -> (event: Option<CompilerInterrupt<T>>)
    requires
        asked_in_turn(fs, memory, task),
    ensures
        event == preferred(fs, memory, task),
        event is None <==> fs is None && memory is None && task is None,
{
    prefer(fs, memory, task)
}

/// Whether some interrupt of a batch has asked for a compilation.
pub struct Batch {
    need_recompile: bool,
}

impl Batch {
    /// Whether a compilation was asked for.
    pub closed spec fn asked(self) -> bool {
        self.need_recompile
    }

    /// A batch in which nothing was processed yet: no compilation is asked
    /// for.
    pub fn new() -> (batch: Self)
        ensures
            !batch.asked(),
    {
        Batch { need_recompile: false }
    }

    /// Takes note of the reaction to one more interrupt of the batch.
    pub fn record<T>(&mut self, reaction: &Reaction<T>)
        ensures
            final(self).asked() == (old(self).asked() || reaction.needs_recompile()),
    {
        self.need_recompile = reaction.needs_recompile() || self.need_recompile;
    }

    /// Whether the batch ends with a compilation: one compilation, where any
    /// of its interrupts asked for one, and else none.
    pub fn wants_compile(&self) -> (wanted: bool)
        ensures
            wanted == self.asked(),
    {
        self.need_recompile
    }
}

/// The state of an actor, as the contracts see it.
pub struct ActorView<C> {
    /// The compiler.
    pub compiler: C,
    /// The root of the workspace.
    pub root: String,
    /// Whether the file system is watched.
    pub enable_watch: bool,
    /// The logical clock.
    pub logical_tick: usize,
    /// Zero, or the tick at which the outstanding upstream update was sent.
    pub dirty_shadow_logical_tick: usize,
    /// The estimate of the shadowed paths.
    pub estimated_shadow_files: Set<Seq<char>>,
    /// The document of the latest compilation.
    pub latest_doc: Option<Arc<PagedDocument>>,
    /// The age at which memoised results are evicted.
    pub cache_eviction_threshold: usize,
}

/// Whether `event` is one that the file watcher can send: an upstream update
/// that comes back still holds its update.
pub open spec fn deliverable<T>(event: CompilerInterrupt<T>) -> bool {
    event matches CompilerInterrupt::Fs(Some(FilesystemEvent::UpstreamUpdate { upstream_event, .. }))
        ==> upstream_event is Some
}

/// Whether a memory event is applied at once: it invalidates nothing that is
/// believed to be shadowed, and no upstream update is outstanding.
pub open spec fn applies_directly<C>(pre: ActorView<C>, event: MemoryEvent) -> bool {
    invalidated_by(pre.estimated_shadow_files, event) == Set::<Seq<char>>::empty()
        && pre.dirty_shadow_logical_tick == 0
}

/// The state after `event` was processed in the state `pre`.
///
/// Every interrupt advances the logical clock by one. A memory event brings
/// the estimate up to date and, unless it applies directly, marks the shadow
/// dirty at the new tick. An upstream update that comes back with the tick at
/// which the shadow was marked dirty clears the mark.
pub open spec fn step<C, T>(pre: ActorView<C>, event: CompilerInterrupt<T>) -> ActorView<C> {
    let tick = (pre.logical_tick + 1) as usize;
    match event {
        CompilerInterrupt::Task(_) => ActorView { logical_tick: tick, ..pre },
        CompilerInterrupt::Memory(memory) => ActorView {
            logical_tick: tick,
            dirty_shadow_logical_tick: if applies_directly(pre, memory) {
                pre.dirty_shadow_logical_tick
            } else {
                tick
            },
            estimated_shadow_files: estimated_after(pre.estimated_shadow_files, memory),
            ..pre
        },
        CompilerInterrupt::Fs(
            Some(FilesystemEvent::UpstreamUpdate { upstream_event: Some(upstream), .. }),
        ) => ActorView {
            logical_tick: tick,
            dirty_shadow_logical_tick: if upstream.opaque.logical_tick
                == pre.dirty_shadow_logical_tick {
                0
            } else {
                pre.dirty_shadow_logical_tick
            },
            ..pre
        },
        CompilerInterrupt::Fs(_) => ActorView { logical_tick: tick, ..pre },
    }
}

/// Whether `reaction` is what the actor asks for when it processes `event` in
/// the state `pre`.
///
/// The paths of a deferred update are the invalidated paths, each once; their
/// order is left open.
pub open spec fn reacts<C, T>(
    pre: ActorView<C>,
    event: CompilerInterrupt<T>,
    reaction: Reaction<T>,
) -> bool {
    match event {
        CompilerInterrupt::Task(task) => reaction == Reaction::RunTask(task),
        CompilerInterrupt::Memory(memory) => if applies_directly(pre, memory) {
            reaction == Reaction::<T>::Apply(memory)
        } else {
            &&& reaction matches Reaction::Defer(NotifyMessage::UpstreamUpdate(upstream))
            &&& upstream.opaque == (TaggedMemoryEvent {
                logical_tick: (pre.logical_tick + 1) as usize,
                event: memory,
            })
            &&& distinct_paths(upstream.invalidates@)
            &&& path_set(upstream.invalidates@) == invalidated_by(
                pre.estimated_shadow_files,
                memory,
            )
        },
        CompilerInterrupt::Fs(None) => reaction == (Reaction::<T>::Notify {
            apply: None,
            event: None,
        }),
        CompilerInterrupt::Fs(Some(FilesystemEvent::Update(changes))) => reaction == (Reaction::<
            T,
        >::Notify { apply: None, event: Some(FilesystemEvent::Update(changes)) }),
        CompilerInterrupt::Fs(
            Some(FilesystemEvent::UpstreamUpdate { changeset, upstream_event }),
        ) => upstream_event matches Some(upstream) && reaction == (Reaction::<T>::Notify {
            apply: Some(upstream.opaque.event),
            event: Some(FilesystemEvent::UpstreamUpdate { changeset, upstream_event: None }),
        }),
    }
}

/// The compile actor. `C` is the compiler that it owns, `T` the tasks that
/// clients send to run on it.
#[verifier::reject_recursive_types(T)]
pub struct CompileActor<C, T> {
    /// The underlying compiler.
    pub compiler: C,
    /// The root path of the workspace.
    pub root: String,
    /// Whether to watch the file system.
    pub enable_watch: bool,
    /// The receiving half of the channel for tasks that borrow the actor.
    pub steal_recv: UnboundedReceiver<T>,
    /// The receiving half of the channel for memory events.
    pub memory_recv: UnboundedReceiver<MemoryEvent>,
    logical_tick: usize,
    dirty_shadow_logical_tick: usize,
    estimated_shadow_files: PathSet,
    latest_doc: Option<Arc<PagedDocument>>,
    cache_eviction_threshold: usize,
    steal_send: UnboundedSender<T>,
    memory_send: UnboundedSender<MemoryEvent>,
}

impl<C, T> View for CompileActor<C, T> {
    type V = ActorView<C>;

    closed spec fn view(&self) -> ActorView<C> {
        ActorView {
            compiler: self.compiler,
            root: self.root,
            enable_watch: self.enable_watch,
            logical_tick: self.logical_tick,
            dirty_shadow_logical_tick: self.dirty_shadow_logical_tick,
            estimated_shadow_files: self.estimated_shadow_files@,
            latest_doc: self.latest_doc,
            cache_eviction_threshold: self.cache_eviction_threshold,
        }
    }
}

impl<C, T> CompileActor<C, T> {
    /// The sending half of the channel for tasks, which clients get copies
    /// of.
    pub closed spec fn steal_sender(self) -> UnboundedSender<T> {
        self.steal_send
    }

    /// The sending half of the channel for memory events, which clients get
    /// copies of.
    pub closed spec fn memory_sender(self) -> UnboundedSender<MemoryEvent> {
        self.memory_send
    }

    /// The receiving half of the channel for tasks.
    pub closed spec fn steal_receiver(self) -> UnboundedReceiver<T> {
        self.steal_recv
    }

    /// The receiving half of the channel for memory events.
    pub closed spec fn memory_receiver(self) -> UnboundedReceiver<MemoryEvent> {
        self.memory_recv
    }

    /// Whether the actor has the channel halves of `other`: the same two
    /// sending halves and the same two receiving halves.
    pub open spec fn same_channels(self, other: Self) -> bool {
        &&& self.steal_sender() == other.steal_sender()
        &&& self.memory_sender() == other.memory_sender()
        &&& self.steal_receiver() == other.steal_receiver()
        &&& self.memory_receiver() == other.memory_receiver()
    }

    /// A new actor for `compiler` in the workspace `root`: the clock at one,
    /// nothing shadowed, nothing outstanding, no document, and the file
    /// system not watched.
    pub fn new(compiler: C, root: String) -> (actor: Self)
        ensures
            actor@ == (ActorView {
                compiler,
                root,
                enable_watch: false,
                logical_tick: 1,
                dirty_shadow_logical_tick: 0,
                estimated_shadow_files: Set::<Seq<char>>::empty(),
                latest_doc: None,
                cache_eviction_threshold: DEFAULT_CACHE_EVICTION_THRESHOLD,
            }),
    {
        let (steal_send, steal_recv) = tokio::sync::mpsc::unbounded_channel();
        let (memory_send, memory_recv) = tokio::sync::mpsc::unbounded_channel();
        CompileActor {
            compiler,
            root,
            enable_watch: false,
            steal_recv,
            memory_recv,
            logical_tick: 1,
            dirty_shadow_logical_tick: 0,
            estimated_shadow_files: PathSet::new(),
            latest_doc: None,
            cache_eviction_threshold: DEFAULT_CACHE_EVICTION_THRESHOLD,
            steal_send,
            memory_send,
        }
    }

    /// The same actor with watching switched on or off.
    pub fn with_watch(self, enable_watch: bool) -> (actor: Self)
        ensures
            actor@ == (ActorView { enable_watch, ..self@ }),
            actor.same_channels(self),
    {
        let mut actor = self;
        actor.enable_watch = enable_watch;
        actor
    }

    /// The same actor with another age at which memoised results are evicted.
    pub fn with_cache_eviction_threshold(self, max_age: usize) -> (actor: Self)
        ensures
            actor@ == (ActorView { cache_eviction_threshold: max_age, ..self@ }),
            actor.same_channels(self),
    {
        let mut actor = self;
        actor.cache_eviction_threshold = max_age;
        actor
    }

    /// The actor, unchanged, and a client that sends to its channels: the
    /// client's two sending halves are those of the actor, so that what the
    /// client queues is what the actor's receiving halves give.
    pub fn split(self) -> (halves: (Self, CompileClient<T>))
        ensures
            halves.0@ == self@,
            halves.0.same_channels(self),
            halves.1.steal_sender() == self.steal_sender(),
            halves.1.memory_sender() == self.memory_sender(),
    {
        let steal_send = clone_sender(&self.steal_send);
        let memory_send = clone_sender(&self.memory_send);
        (self, CompileClient::new(steal_send, memory_send))
    }

    /// The document of the latest compilation, if it produced one.
    pub fn document(&self) -> (document: Option<Arc<PagedDocument>>)
        ensures
            document == self@.latest_doc,
    {
        match &self.latest_doc {
            Some(document) => Some(share_document(document)),
            None => None,
        }
    }

    /// How the actor runs; `in_runtime` says whether the caller is inside an
    /// asynchronous runtime.
    pub fn run_mode(&self, in_runtime: bool) -> (mode: RunMode)
        ensures
            mode == run_mode_of(self@.enable_watch, in_runtime),
    {
        if !self.enable_watch {
            RunMode::OneShot
        } else if in_runtime {
            RunMode::Watched
        } else {
            RunMode::Refused
        }
    }

    /// The logical clock.
    pub fn logical_tick(&self) -> (tick: usize)
        ensures
            tick == self@.logical_tick,
    {
        self.logical_tick
    }

    /// Zero, or the tick at which the outstanding upstream update was sent.
    pub fn dirty_shadow_logical_tick(&self) -> (tick: usize)
        ensures
            tick == self@.dirty_shadow_logical_tick,
    {
        self.dirty_shadow_logical_tick
    }

    /// Whether `path` is believed to be shadowed.
    pub fn is_shadowed(&self, path: &String) -> (shadowed: bool)
        ensures
            shadowed == self@.estimated_shadow_files.contains(path@),
    {
        self.estimated_shadow_files.contains(path)
    }

    /// The number of paths that are believed to be shadowed.
    pub fn shadowed_len(&self) -> (n: usize)
        ensures
            self@.estimated_shadow_files.finite(),
            n == self@.estimated_shadow_files.len(),
    {
        self.estimated_shadow_files.len()
    }

    /// Advances the logical clock by one, as the loop does when it wakes up
    /// for a new batch of interrupts.
    pub fn begin_batch(&mut self)
        requires
            old(self)@.logical_tick < usize::MAX,
        ensures
            final(self)@ == (ActorView {
                logical_tick: (old(self)@.logical_tick + 1) as usize,
                ..old(self)@
            }),
            final(self).same_channels(*old(self)),
    {
        self.logical_tick = self.logical_tick + 1;
    }

    /// Processes one interrupt: moves the actor to its next state and says
    /// what the loop has to do.
    pub fn process(&mut self, event: CompilerInterrupt<T>) -> (reaction: Reaction<T>)
        requires
            old(self)@.logical_tick < usize::MAX,
            deliverable(event),
        ensures
            final(self)@ == step(old(self)@, event),
            final(self).same_channels(*old(self)),
            reacts(old(self)@, event, reaction),
    {
        self.logical_tick = self.logical_tick + 1;
        match event {
            CompilerInterrupt::Task(task) => Reaction::RunTask(task),
            CompilerInterrupt::Memory(memory) => {
                let files = estimate(&mut self.estimated_shadow_files, &memory);
                if files.is_empty() && self.dirty_shadow_logical_tick == 0 {
                    return Reaction::Apply(memory);
                }
                self.dirty_shadow_logical_tick = self.logical_tick;
                Reaction::Defer(
                    NotifyMessage::UpstreamUpdate(
                        UpstreamUpdateEvent {
                            invalidates: files.into_paths(),
                            opaque: TaggedMemoryEvent {
                                logical_tick: self.logical_tick,
                                event: memory,
                            },
                        },
                    ),
                )
            },
            CompilerInterrupt::Fs(None) => Reaction::Notify { apply: None, event: None },
            CompilerInterrupt::Fs(Some(FilesystemEvent::Update(changes))) => Reaction::Notify {
                apply: None,
                event: Some(FilesystemEvent::Update(changes)),
            },
            CompilerInterrupt::Fs(
                Some(FilesystemEvent::UpstreamUpdate { changeset, upstream_event }),
            ) => {
                let upstream = upstream_event.unwrap();
                if upstream.opaque.logical_tick == self.dirty_shadow_logical_tick {
                    self.dirty_shadow_logical_tick = 0;
                }
                Reaction::Notify {
                    apply: Some(upstream.opaque.event),
                    event: Some(FilesystemEvent::UpstreamUpdate { changeset, upstream_event: None }),
                }
            },
        }
    }

    /// Takes the next interrupt that is ready, without waiting: a report of
    /// the file watcher before a memory event, and a memory event before a
    /// task. `None` says that all three channels are empty or closed.
    ///
    /// A channel is asked only where the channels before it gave nothing, so
    /// that nothing is taken and left unprocessed; the one answer becomes
    /// the interrupt, as [`taken_in_turn`] says.
    pub fn poll(&mut self, fs_recv: &mut UnboundedReceiver<Option<FilesystemEvent>>) -> (event:
        Option<CompilerInterrupt<T>>)
        ensures
            final(self)@ == old(self)@,
            final(self).same_channels(*old(self)),
            *final(fs_recv) == *old(fs_recv),
    {
        let fs = try_receive(fs_recv);
        let memory = match &fs {
            Some(_) => None,
            None => try_receive(&mut self.memory_recv),
        };
        let task = match (&fs, &memory) {
            (None, None) => try_receive(&mut self.steal_recv),
            _ => None,
        };
        taken_in_turn(fs, memory, task)
    }

    /// Records the outcome of a compilation: keeps `document` as the latest
    /// document, which is none where the compilation failed, and evicts old
    /// results from the memoisation cache.
    pub fn compiled(&mut self, document: Option<Arc<PagedDocument>>)
        ensures
            final(self)@ == (ActorView { latest_doc: document, ..old(self)@ }),
            final(self).same_channels(*old(self)),
    {
        self.latest_doc = document;
        evict_cache(self.cache_eviction_threshold);
    }

    /// The message that tells the file watcher which files the latest
    /// compilation read: exactly the given dependencies, in their order.
    pub fn sync_dependency(&self, dependencies: Vec<String>) -> (message: NotifyMessage)
        ensures
            message == NotifyMessage::SyncDependency(dependencies),
    {
        NotifyMessage::SyncDependency(dependencies)
    }
}

/// Every processed event advances the logical clock by one, so the clock is
/// strictly monotonic.
pub proof fn lemma_tick_is_strictly_monotonic<C, T>(pre: ActorView<C>, event: CompilerInterrupt<T>)
    requires
        pre.logical_tick < usize::MAX,
    ensures
        step(pre, event).logical_tick == pre.logical_tick + 1,
        step(pre, event).logical_tick > pre.logical_tick,
{
}

/// An upstream update that comes back with the tick at which the shadow was
/// marked dirty clears the mark; one with another tick leaves the mark as it
/// is. Either way the memory event that it carries is applied, and a
/// compilation is asked for.
pub proof fn lemma_upstream_update_returns<C, T>(
    pre: ActorView<C>,
    changeset: crate::notify::FileChangeSet,
    upstream: UpstreamUpdateEvent,
    reaction: Reaction<T>,
)
    requires
        reacts(
            pre,
            CompilerInterrupt::<T>::Fs(
                Some(FilesystemEvent::UpstreamUpdate { changeset, upstream_event: Some(upstream) }),
            ),
            reaction,
        ),
    ensures
        ({
            let event = CompilerInterrupt::<T>::Fs(
                Some(FilesystemEvent::UpstreamUpdate { changeset, upstream_event: Some(upstream) }),
            );
            let post = step(pre, event);
            &&& upstream.opaque.logical_tick == pre.dirty_shadow_logical_tick
                ==> post.dirty_shadow_logical_tick == 0
            &&& upstream.opaque.logical_tick != pre.dirty_shadow_logical_tick
                ==> post.dirty_shadow_logical_tick == pre.dirty_shadow_logical_tick
            &&& reaction matches Reaction::Notify { apply, .. } && apply == Some(
                upstream.opaque.event,
            )
            &&& reaction.needs_recompile()
        }),
{
}

/// An `Update` without removes and without inserts leaves the estimate as
/// it is. Where no upstream update is outstanding it is applied at once, and
/// applying it commands nothing; where one is outstanding it is sent
/// upstream with nothing to invalidate, and no compilation is asked for.
pub proof fn lemma_empty_update_is_processed<C, T>(
    pre: ActorView<C>,
    changes: crate::notify::FileChangeSet,
    reaction: Reaction<T>,
)
    requires
        changes.removes@.len() == 0,
        changes.inserts@.len() == 0,
        reacts(pre, CompilerInterrupt::<T>::Memory(MemoryEvent::Update(changes)), reaction),
    ensures
        ({
            let memory = MemoryEvent::Update(changes);
            let post = step(pre, CompilerInterrupt::<T>::Memory(memory));
            &&& post.estimated_shadow_files == pre.estimated_shadow_files
            &&& crate::shadow::projection(memory) == Seq::<crate::shadow::ShadowCommand>::empty()
            &&& pre.dirty_shadow_logical_tick == 0 ==> reaction == Reaction::<T>::Apply(memory)
            &&& pre.dirty_shadow_logical_tick != 0 ==> {
                &&& reaction matches Reaction::Defer(NotifyMessage::UpstreamUpdate(upstream))
                &&& upstream.invalidates@.len() == 0
                &&& !reaction.needs_recompile()
            }
        }),
{
    let memory = MemoryEvent::Update(changes);
    crate::shadow::lemma_empty_update_keeps_shadow(
        Map::empty(),
        pre.estimated_shadow_files,
        changes,
    );
    if pre.dirty_shadow_logical_tick != 0 {
        let upstream = reaction->Defer_0->UpstreamUpdate_0;
        if upstream.invalidates@.len() > 0 {
            assert(path_set(upstream.invalidates@).contains(upstream.invalidates@[0]@));
        }
    }
}

/// While an upstream update is outstanding no memory event is applied at
/// once: it is sent upstream too, so that memory events reach the compiler
/// in the order in which they were submitted.
pub proof fn lemma_memory_events_do_not_overtake<C, T>(
    pre: ActorView<C>,
    memory: MemoryEvent,
    reaction: Reaction<T>,
)
    requires
        pre.dirty_shadow_logical_tick != 0,
        reacts(pre, CompilerInterrupt::<T>::Memory(memory), reaction),
    ensures
        reaction matches Reaction::Defer(NotifyMessage::UpstreamUpdate(upstream))
            && upstream.opaque.event == memory,
        !reaction.needs_recompile(),
{
}

} // verus!
