use tokio::sync::mpsc::unbounded_channel;
use typst_ts_compiler::actor::{
    prefer, taken_in_turn, Batch, CompileActor, Reaction, RunMode,
    DEFAULT_CACHE_EVICTION_THRESHOLD,
};
use typst_ts_compiler::notify::{
    CompilerInterrupt, FileChangeSet, FilesystemEvent, MemoryEvent, NotifyMessage,
    TaggedMemoryEvent, UpstreamUpdateEvent,
};
use typst_ts_compiler::shadow::{project, ShadowCommand};

fn path(text: &str) -> String {
    text.to_string()
}

fn inserts(pairs: &[(&str, &str)]) -> FileChangeSet {
    FileChangeSet::new_inserts(
        pairs.iter().map(|(p, c)| (p.to_string(), c.as_bytes().to_vec())).collect(),
    )
}

fn new_actor() -> CompileActor<(), u32> {
    CompileActor::new((), path("/workspace"))
}

#[test]
fn new_actor_starts_settled() {
    let actor = new_actor();
    assert_eq!(actor.logical_tick(), 1);
    assert_eq!(actor.dirty_shadow_logical_tick(), 0);
    assert_eq!(actor.shadowed_len(), 0);
    assert!(!actor.enable_watch);
    assert_eq!(actor.root, "/workspace");
    assert!(actor.document().is_none());
    assert_eq!(DEFAULT_CACHE_EVICTION_THRESHOLD, 30);
}

#[test]
fn with_watch_sets_the_flag() {
    let actor = new_actor().with_watch(true);
    assert!(actor.enable_watch);
    let actor = actor.with_watch(false);
    assert!(!actor.enable_watch);
    assert_eq!(actor.logical_tick(), 1);
}

#[test]
fn direct_apply() {
    let mut actor = new_actor();
    let before = actor.logical_tick();
    actor.begin_batch();
    let event = MemoryEvent::Update(inserts(&[("/a.typ", "x")]));
    let reaction = actor.process(CompilerInterrupt::Memory(event.clone()));
    assert!(reaction.needs_recompile());
    let applied = match reaction {
        Reaction::Apply(applied) => applied,
        other => panic!("expected a direct apply, got {:?}", other),
    };
    assert_eq!(applied, event);
    let a = path("/a.typ");
    let x = b"x".to_vec();
    assert_eq!(project(&applied), vec![ShadowCommand::MapShadow(&a, &x)]);
    assert!(actor.is_shadowed(&a));
    assert_eq!(actor.shadowed_len(), 1);
    assert_eq!(actor.dirty_shadow_logical_tick(), 0);
    actor.compiled(None);
    let message = actor.sync_dependency(vec![path("/a.typ"), path("/main.typ")]);
    assert_eq!(
        message,
        NotifyMessage::SyncDependency(vec![path("/a.typ"), path("/main.typ")])
    );
    assert!(actor.logical_tick() >= before + 2);
    assert_eq!(actor.logical_tick(), 3);
}

#[test]
fn overlap_defer() {
    let mut actor = new_actor();
    let first = MemoryEvent::Update(inserts(&[("/b.typ", "x")]));
    assert!(matches!(actor.process(CompilerInterrupt::Memory(first)), Reaction::Apply(_)));

    let event = MemoryEvent::Update(FileChangeSet {
        removes: vec![path("/b.typ")],
        inserts: vec![(path("/a.typ"), b"y".to_vec())],
    });
    let reaction = actor.process(CompilerInterrupt::Memory(event.clone()));
    assert!(!reaction.needs_recompile());
    let tick = actor.logical_tick();
    assert_eq!(tick, 3);
    assert_eq!(actor.dirty_shadow_logical_tick(), tick);
    let upstream = match reaction {
        Reaction::Defer(NotifyMessage::UpstreamUpdate(upstream)) => upstream,
        other => panic!("expected an upstream update, got {:?}", other),
    };
    assert_eq!(upstream.invalidates, vec![path("/b.typ")]);
    assert_eq!(upstream.opaque, TaggedMemoryEvent { logical_tick: tick, event: event.clone() });

    let back = FilesystemEvent::UpstreamUpdate {
        changeset: FileChangeSet::new_removes(vec![]),
        upstream_event: Some(upstream),
    };
    let reaction = actor.process(CompilerInterrupt::Fs(Some(back)));
    assert!(reaction.needs_recompile());
    assert_eq!(actor.dirty_shadow_logical_tick(), 0);
    let (apply, forwarded) = match reaction {
        Reaction::Notify { apply, event } => (apply, event),
        other => panic!("expected a notification, got {:?}", other),
    };
    let apply = apply.unwrap();
    assert_eq!(apply, event);
    let a = path("/a.typ");
    let b = path("/b.typ");
    let y = b"y".to_vec();
    assert_eq!(
        project(&apply),
        vec![ShadowCommand::UnmapShadow(&b), ShadowCommand::MapShadow(&a, &y)]
    );
    assert_eq!(
        forwarded,
        Some(FilesystemEvent::UpstreamUpdate {
            changeset: FileChangeSet::new_removes(vec![]),
            upstream_event: None,
        })
    );
    assert!(actor.is_shadowed(&a));
    assert!(!actor.is_shadowed(&b));
}

#[test]
fn insert_over_a_shadowed_path_applies_directly() {
    let mut actor = new_actor();
    let first = MemoryEvent::Update(inserts(&[("/a.typ", "x")]));
    assert!(matches!(actor.process(CompilerInterrupt::Memory(first)), Reaction::Apply(_)));
    let second = MemoryEvent::Update(inserts(&[("/a.typ", "y")]));
    assert!(matches!(actor.process(CompilerInterrupt::Memory(second)), Reaction::Apply(_)));
    assert_eq!(actor.dirty_shadow_logical_tick(), 0);
    assert_eq!(actor.shadowed_len(), 1);
}

#[test]
fn memory_event_waits_while_an_update_is_outstanding() {
    let mut actor = new_actor();
    let first = MemoryEvent::Update(FileChangeSet::new_removes(vec![path("/gone.typ")]));
    assert!(matches!(actor.process(CompilerInterrupt::Memory(first)), Reaction::Defer(_)));
    assert_eq!(actor.dirty_shadow_logical_tick(), 2);
    // Nothing is invalidated by the next event, yet it must not overtake.
    let second = MemoryEvent::Update(inserts(&[("/a.typ", "x")]));
    let reaction = actor.process(CompilerInterrupt::Memory(second.clone()));
    let upstream = match reaction {
        Reaction::Defer(NotifyMessage::UpstreamUpdate(upstream)) => upstream,
        other => panic!("expected an upstream update, got {:?}", other),
    };
    assert!(upstream.invalidates.is_empty());
    assert_eq!(upstream.opaque, TaggedMemoryEvent { logical_tick: 3, event: second });
    assert_eq!(actor.dirty_shadow_logical_tick(), 3);
}

#[test]
fn sync_invalidates_the_old_estimate() {
    let mut actor = new_actor();
    let first = MemoryEvent::Update(inserts(&[("/a.typ", "x"), ("/b.typ", "y")]));
    assert!(matches!(actor.process(CompilerInterrupt::Memory(first)), Reaction::Apply(_)));
    let sync = MemoryEvent::Sync(inserts(&[("/b.typ", "z"), ("/c.typ", "w")]));
    let reaction = actor.process(CompilerInterrupt::Memory(sync));
    let upstream = match reaction {
        Reaction::Defer(NotifyMessage::UpstreamUpdate(upstream)) => upstream,
        other => panic!("expected an upstream update, got {:?}", other),
    };
    assert_eq!(upstream.invalidates, vec![path("/a.typ")]);
    assert!(!actor.is_shadowed(&path("/a.typ")));
    assert!(actor.is_shadowed(&path("/b.typ")));
    assert!(actor.is_shadowed(&path("/c.typ")));
    assert_eq!(actor.shadowed_len(), 2);
}

#[test]
fn upstream_update_with_matching_tick_clears_the_dirty_tick() {
    let mut actor = new_actor();
    let event = MemoryEvent::Update(FileChangeSet::new_removes(vec![path("/a.typ")]));
    let reaction = actor.process(CompilerInterrupt::Memory(event));
    let upstream = match reaction {
        Reaction::Defer(NotifyMessage::UpstreamUpdate(upstream)) => upstream,
        other => panic!("expected an upstream update, got {:?}", other),
    };
    assert_eq!(upstream.opaque.logical_tick, 2);
    assert_eq!(actor.dirty_shadow_logical_tick(), 2);
    let back = FilesystemEvent::UpstreamUpdate {
        changeset: FileChangeSet::new_removes(vec![path("/a.typ")]),
        upstream_event: Some(upstream),
    };
    let reaction = actor.process(CompilerInterrupt::Fs(Some(back)));
    assert!(reaction.needs_recompile());
    assert_eq!(actor.dirty_shadow_logical_tick(), 0);
}

#[test]
fn upstream_update_with_other_tick_keeps_the_dirty_tick_and_applies() {
    let mut actor = new_actor();
    let event = MemoryEvent::Update(FileChangeSet::new_removes(vec![path("/a.typ")]));
    assert!(matches!(actor.process(CompilerInterrupt::Memory(event)), Reaction::Defer(_)));
    assert_eq!(actor.dirty_shadow_logical_tick(), 2);
    let stale = MemoryEvent::Update(inserts(&[("/s.typ", "s")]));
    let back = FilesystemEvent::UpstreamUpdate {
        changeset: FileChangeSet::new_removes(vec![]),
        upstream_event: Some(UpstreamUpdateEvent {
            invalidates: vec![],
            opaque: TaggedMemoryEvent { logical_tick: 77, event: stale.clone() },
        }),
    };
    let reaction = actor.process(CompilerInterrupt::Fs(Some(back)));
    assert_eq!(actor.dirty_shadow_logical_tick(), 2);
    match reaction {
        Reaction::Notify { apply, event: Some(_) } => assert_eq!(apply, Some(stale)),
        other => panic!("expected a notification, got {:?}", other),
    }
}

#[test]
fn plain_fs_events_are_forwarded() {
    let mut actor = new_actor();
    let changes = inserts(&[("/a.typ", "disk")]);
    let reaction = actor.process(CompilerInterrupt::Fs(Some(FilesystemEvent::Update(changes.clone()))));
    assert_eq!(
        reaction,
        Reaction::Notify { apply: None, event: Some(FilesystemEvent::Update(changes)) }
    );
    assert!(reaction.needs_recompile());
    assert_eq!(actor.logical_tick(), 2);
    assert_eq!(actor.shadowed_len(), 0);
}

#[test]
fn scan_done_triggers_a_compile() {
    let mut actor = new_actor();
    let reaction = actor.process(CompilerInterrupt::Fs(None));
    assert_eq!(reaction, Reaction::Notify { apply: None, event: None });
    assert!(reaction.needs_recompile());
}

#[test]
fn task_never_triggers_a_compile() {
    let mut actor = new_actor();
    let reaction = actor.process(CompilerInterrupt::Task(42));
    assert_eq!(reaction, Reaction::RunTask(42));
    assert!(!reaction.needs_recompile());
    assert_eq!(actor.logical_tick(), 2);
    assert_eq!(actor.dirty_shadow_logical_tick(), 0);
}

#[test]
fn logical_tick_grows_by_one_with_every_event() {
    let mut actor = new_actor();
    let mut last = actor.logical_tick();
    let events = vec![
        CompilerInterrupt::Task(1),
        CompilerInterrupt::Fs(None),
        CompilerInterrupt::Memory(MemoryEvent::Update(inserts(&[("/a", "1")]))),
        CompilerInterrupt::Memory(MemoryEvent::Sync(inserts(&[("/b", "2")]))),
        CompilerInterrupt::Fs(Some(FilesystemEvent::Update(inserts(&[])))),
    ];
    for event in events {
        actor.process(event);
        assert_eq!(actor.logical_tick(), last + 1);
        last = actor.logical_tick();
    }
    actor.begin_batch();
    assert_eq!(actor.logical_tick(), last + 1);
}

#[test]
fn empty_update_keeps_the_shadow() {
    let mut actor = new_actor();
    let first = MemoryEvent::Update(inserts(&[("/a.typ", "x")]));
    actor.process(CompilerInterrupt::Memory(first));
    let empty = MemoryEvent::Update(FileChangeSet { removes: vec![], inserts: vec![] });
    let reaction = actor.process(CompilerInterrupt::Memory(empty));
    let applied = match reaction {
        Reaction::Apply(applied) => applied,
        other => panic!("expected a direct apply, got {:?}", other),
    };
    assert!(project(&applied).is_empty());
    assert_eq!(actor.shadowed_len(), 1);
    assert!(actor.is_shadowed(&path("/a.typ")));
    assert_eq!(actor.dirty_shadow_logical_tick(), 0);
}

#[test]
fn sync_twice_is_sync_once() {
    let mut actor = new_actor();
    let sync = MemoryEvent::Sync(inserts(&[("/a.typ", "x"), ("/b.typ", "y")]));
    let first = actor.process(CompilerInterrupt::Memory(sync.clone()));
    assert_eq!(first, Reaction::Apply(sync.clone()));
    let second = actor.process(CompilerInterrupt::Memory(sync.clone()));
    assert_eq!(second, Reaction::Apply(sync.clone()));
    assert_eq!(actor.shadowed_len(), 2);
    assert!(actor.is_shadowed(&path("/a.typ")));
    assert!(actor.is_shadowed(&path("/b.typ")));
    assert_eq!(project(&sync), project(&sync.clone()));
}

#[test]
fn batch_coalescing() {
    let (actor, client) = new_actor().split();
    let mut actor = actor;
    let (fs_send, mut fs_recv) = unbounded_channel::<Option<FilesystemEvent>>();
    for name in ["/x", "/y", "/z"] {
        fs_send.send(Some(FilesystemEvent::Update(inserts(&[(name, "disk")])))).unwrap();
    }
    client.add_memory_changes(MemoryEvent::Sync(inserts(&[("/a", "1")]))).unwrap();

    actor.begin_batch();
    let mut order = Vec::new();
    let mut batch = Batch::new();
    while let Some(event) = actor.poll(&mut fs_recv) {
        order.push(match &event {
            CompilerInterrupt::Fs(_) => "fs",
            CompilerInterrupt::Memory(_) => "memory",
            CompilerInterrupt::Task(_) => "task",
        });
        batch.record(&actor.process(event));
    }
    assert_eq!(order, vec!["fs", "fs", "fs", "memory"]);
    let mut compiles = 0;
    let mut broadcasts = Vec::new();
    if batch.wants_compile() {
        compiles += 1;
        actor.compiled(None);
        broadcasts.push(actor.sync_dependency(vec![path("/a")]));
    }
    assert_eq!(compiles, 1);
    assert_eq!(broadcasts, vec![NotifyMessage::SyncDependency(vec![path("/a")])]);
    assert!(actor.is_shadowed(&path("/a")));
    assert_eq!(actor.logical_tick(), 6);
}

#[test]
fn steal_determinism() {
    let (actor, client) = new_actor().split();
    let mut actor = actor;
    let (_fs_send, mut fs_recv) = unbounded_channel::<Option<FilesystemEvent>>();
    // The task is queued first, the memory event second: the memory event
    // is still processed first.
    client.steal_inner(7).unwrap();
    client.add_memory_changes(MemoryEvent::Update(inserts(&[("/a", "v")]))).unwrap();

    let first = actor.poll(&mut fs_recv).unwrap();
    let reaction = actor.process(first);
    let applied = match reaction {
        Reaction::Apply(applied) => applied,
        other => panic!("expected a direct apply, got {:?}", other),
    };
    let a = path("/a");
    let v = b"v".to_vec();
    assert_eq!(project(&applied), vec![ShadowCommand::MapShadow(&a, &v)]);
    let second = actor.poll(&mut fs_recv).unwrap();
    assert_eq!(actor.process(second), Reaction::RunTask(7));
    assert!(actor.is_shadowed(&a));
    assert!(actor.poll(&mut fs_recv).is_none());
}

#[test]
fn closed_channels_give_no_event() {
    let (mut actor, client) = new_actor().split();
    let (fs_send, mut fs_recv) = unbounded_channel::<Option<FilesystemEvent>>();
    drop(client);
    drop(fs_send);
    assert!(actor.poll(&mut fs_recv).is_none());
    assert_eq!(actor.logical_tick(), 1);
    assert!(actor.document().is_none());
}

#[test]
fn client_gets_the_event_back_when_the_actor_is_gone() {
    let (actor, client) = new_actor().split();
    drop(actor);
    let event = MemoryEvent::Update(inserts(&[("/a", "v")]));
    assert_eq!(client.add_memory_changes(event.clone()), Err(event));
    assert_eq!(client.steal_inner(3), Err(3));
}

#[test]
fn compiled_keeps_the_state() {
    let mut actor = new_actor().with_cache_eviction_threshold(0);
    let event = MemoryEvent::Update(inserts(&[("/a.typ", "x")]));
    actor.process(CompilerInterrupt::Memory(event));
    actor.compiled(None);
    assert_eq!(actor.sync_dependency(vec![]), NotifyMessage::SyncDependency(vec![]));
    assert_eq!(actor.logical_tick(), 2);
    assert!(actor.is_shadowed(&path("/a.typ")));
    assert!(actor.document().is_none());
}

#[test]
fn run_mode_follows_watch_and_runtime() {
    let actor = new_actor();
    assert_eq!(actor.run_mode(true), RunMode::OneShot);
    assert_eq!(actor.run_mode(false), RunMode::OneShot);
    let actor = actor.with_watch(true);
    assert_eq!(actor.run_mode(true), RunMode::Watched);
    assert_eq!(actor.run_mode(false), RunMode::Refused);
}

#[test]
fn document_shares_the_latest_document() {
    let mut actor = new_actor();
    assert!(actor.document().is_none());
    let compiled = std::sync::Arc::new(typst::layout::PagedDocument::default());
    actor.compiled(Some(compiled.clone()));
    let first = actor.document().unwrap();
    let second = actor.document().unwrap();
    assert!(std::sync::Arc::ptr_eq(&first, &compiled));
    assert!(std::sync::Arc::ptr_eq(&second, &compiled));
    // A compilation without a document leaves none.
    actor.compiled(None);
    assert!(actor.document().is_none());
}

fn perform(shadow: &mut std::collections::BTreeMap<String, Vec<u8>>, event: &MemoryEvent) {
    for command in project(event) {
        match command {
            ShadowCommand::ResetShadow => shadow.clear(),
            ShadowCommand::UnmapShadow(p) => {
                shadow.remove(p);
            }
            ShadowCommand::MapShadow(p, content) => {
                shadow.insert(p.clone(), content.clone());
            }
        }
    }
}

#[test]
fn estimate_agrees_with_the_compiler_once_settled() {
    let mut actor = new_actor();
    let mut shadow = std::collections::BTreeMap::new();
    let mut in_flight = std::collections::VecDeque::new();
    let events = vec![
        MemoryEvent::Update(inserts(&[("/a", "1"), ("/b", "2")])),
        MemoryEvent::Update(FileChangeSet {
            removes: vec![path("/a")],
            inserts: vec![(path("/c"), b"3".to_vec())],
        }),
        MemoryEvent::Update(inserts(&[("/d", "4")])),
        MemoryEvent::Sync(inserts(&[("/c", "5"), ("/e", "6")])),
    ];
    for event in events {
        match actor.process(CompilerInterrupt::Memory(event)) {
            Reaction::Apply(now) => perform(&mut shadow, &now),
            Reaction::Defer(NotifyMessage::UpstreamUpdate(upstream)) => {
                in_flight.push_back(upstream)
            }
            other => panic!("unexpected reaction {:?}", other),
        }
    }
    // The first event applied at once; the others wait for their round trip.
    assert_eq!(in_flight.len(), 3);
    assert_eq!(actor.dirty_shadow_logical_tick(), 5);
    while let Some(upstream) = in_flight.pop_front() {
        assert_ne!(actor.dirty_shadow_logical_tick(), 0);
        let back = FilesystemEvent::UpstreamUpdate {
            changeset: FileChangeSet::new_removes(vec![]),
            upstream_event: Some(upstream),
        };
        match actor.process(CompilerInterrupt::Fs(Some(back))) {
            Reaction::Notify { apply: Some(now), .. } => perform(&mut shadow, &now),
            other => panic!("unexpected reaction {:?}", other),
        }
    }
    assert_eq!(actor.dirty_shadow_logical_tick(), 0);
    let keys: Vec<String> = shadow.keys().cloned().collect();
    assert_eq!(keys, vec![path("/c"), path("/e")]);
    assert_eq!(actor.shadowed_len(), keys.len());
    for key in &keys {
        assert!(actor.is_shadowed(key));
    }
    assert_eq!(shadow[&path("/c")], b"5".to_vec());
}

#[test]
fn prefer_ranks_the_channels() {
    let fs = FilesystemEvent::Update(inserts(&[("/x", "disk")]));
    let memory = MemoryEvent::Update(inserts(&[("/a", "v")]));
    assert_eq!(
        prefer(Some(Some(fs.clone())), Some(memory.clone()), Some(1u32)),
        Some(CompilerInterrupt::Fs(Some(fs)))
    );
    assert_eq!(
        prefer(Some(None), None, Some(1u32)),
        Some(CompilerInterrupt::Fs(None))
    );
    assert_eq!(
        prefer(None, Some(memory.clone()), Some(1u32)),
        Some(CompilerInterrupt::Memory(memory))
    );
    assert_eq!(prefer(None, None, Some(1u32)), Some(CompilerInterrupt::Task(1)));
    assert_eq!(prefer::<u32>(None, None, None), None);
}

#[test]
fn batch_asks_once_where_any_interrupt_asked() {
    let mut batch = Batch::new();
    assert!(!batch.wants_compile());
    batch.record(&Reaction::RunTask(1u32));
    batch.record(&Reaction::<u32>::Defer(NotifyMessage::SyncDependency(vec![])));
    assert!(!batch.wants_compile());
    batch.record(&Reaction::<u32>::Notify { apply: None, event: None });
    assert!(batch.wants_compile());
    batch.record(&Reaction::RunTask(2u32));
    assert!(batch.wants_compile());
    let mut other = Batch::new();
    other.record(&Reaction::<u32>::Apply(MemoryEvent::Update(inserts(&[]))));
    assert!(other.wants_compile());
}

#[test]
fn taken_in_turn_hands_on_the_one_answer() {
    let memory = MemoryEvent::Update(inserts(&[("/a", "v")]));
    assert_eq!(
        taken_in_turn::<u32>(Some(None), None, None),
        Some(CompilerInterrupt::Fs(None))
    );
    assert_eq!(
        taken_in_turn::<u32>(None, Some(memory.clone()), None),
        Some(CompilerInterrupt::Memory(memory))
    );
    assert_eq!(taken_in_turn(None, None, Some(9u32)), Some(CompilerInterrupt::Task(9)));
    assert_eq!(taken_in_turn::<u32>(None, None, None), None);
}

#[test]
fn a_second_split_gives_a_client_of_the_same_actor() {
    let (actor, first) = new_actor().split();
    let (mut actor, second) = actor.split();
    let (_fs_send, mut fs_recv) = unbounded_channel::<Option<FilesystemEvent>>();
    first.steal_inner(1).unwrap();
    second.steal_inner(2).unwrap();
    first.add_memory_changes(MemoryEvent::Update(inserts(&[("/a", "1")]))).unwrap();
    second.add_memory_changes(MemoryEvent::Update(inserts(&[("/b", "2")]))).unwrap();
    let mut seen = Vec::new();
    while let Some(event) = actor.poll(&mut fs_recv) {
        seen.push(event);
    }
    assert_eq!(
        seen,
        vec![
            CompilerInterrupt::Memory(MemoryEvent::Update(inserts(&[("/a", "1")]))),
            CompilerInterrupt::Memory(MemoryEvent::Update(inserts(&[("/b", "2")]))),
            CompilerInterrupt::Task(1),
            CompilerInterrupt::Task(2),
        ]
    );
}
