//! The shadow registry: which paths are overlaid by memory content.
//!
//! The actor keeps an estimate of the overlaid paths and turns each memory
//! event into the commands that bring the compiler's shadow map up to date.
//! The compiler's map is modelled as a map from a path's characters to the
//! bytes of its content.

use vstd::prelude::*;

use crate::notify::{
    inserted_path_set,
    lemma_inserted_path_set_push,
    FileChangeSet,
    MemoryEvent,
};
use crate::paths::{lemma_path_set_push, path_set, PathSet};

verus! {

/// The estimated shadow set after `event`, when it was `shadow` before.
///
/// A `Sync` leaves exactly the written paths; an `Update` takes the removed
/// paths out and then adds the written ones.
pub open spec fn estimated_after(shadow: Set<Seq<char>>, event: MemoryEvent) -> Set<Seq<char>> {
    match event {
        MemoryEvent::Sync(changes) => changes.inserted_paths(),
        MemoryEvent::Update(changes) => shadow.difference(changes.removed_paths()).union(
            changes.inserted_paths(),
        ),
    }
}

/// The paths that `event` invalidates, when the estimate was `shadow` before:
/// those that lose their overlay and get none back. For a `Sync` every path
/// of the old estimate loses its overlay.
pub open spec fn invalidated_by(shadow: Set<Seq<char>>, event: MemoryEvent) -> Set<Seq<char>> {
    match event {
        MemoryEvent::Sync(changes) => shadow.union(changes.removed_paths()).difference(
            changes.inserted_paths(),
        ),
        MemoryEvent::Update(changes) => changes.removed_paths().difference(
            changes.inserted_paths(),
        ),
    }
}

/// Brings the estimate `shadow` up to date with `event` and returns the
/// paths that the event invalidates.
pub fn estimate(shadow: &mut PathSet, event: &MemoryEvent) -> (invalidated: PathSet)
    ensures
        final(shadow)@ == estimated_after(old(shadow)@, *event),
        invalidated@ == invalidated_by(old(shadow)@, *event),
{
    let mut files = match event {
        MemoryEvent::Sync(_) => shadow.take(),
        MemoryEvent::Update(_) => PathSet::new(),
    };
    let changes = event.changes();
    let ghost shadow0 = shadow@;
    let ghost files0 = files@;

    let mut i: usize = 0;
    proof {
        crate::paths::lemma_path_set_empty();
        assert(changes.removes@.take(0) =~= Seq::<String>::empty());
        assert(shadow@ =~= shadow0.difference(path_set(changes.removes@.take(0))));
        assert(files@ =~= files0.union(path_set(changes.removes@.take(0))));
    }
    while i < changes.removes.len()
        invariant
            i <= changes.removes.len(),
            shadow@ == shadow0.difference(path_set(changes.removes@.take(i as int))),
            files@ == files0.union(path_set(changes.removes@.take(i as int))),
        decreases changes.removes.len() - i,
    {
        let path = &changes.removes[i];
        shadow.remove(path);
        files.insert(path.clone());
        proof {
            let seen = changes.removes@.take(i as int);
            assert(changes.removes@.take(i + 1) =~= seen.push(*path));
            lemma_path_set_push(seen, *path);
            assert(shadow@ =~= shadow0.difference(path_set(seen.push(*path))));
            assert(files@ =~= files0.union(path_set(seen.push(*path))));
        }
        i += 1;
    }
    assert(changes.removes@.take(changes.removes.len() as int) =~= changes.removes@);

    let ghost shadow1 = shadow@;
    let ghost files1 = files@;
    let mut j: usize = 0;
    proof {
        assert(changes.inserts@.take(0) =~= Seq::<(String, Vec<u8>)>::empty());
        assert(inserted_path_set(changes.inserts@.take(0)) =~= Set::<Seq<char>>::empty());
        assert(shadow@ =~= shadow1.union(inserted_path_set(changes.inserts@.take(0))));
        assert(files@ =~= files1.difference(inserted_path_set(changes.inserts@.take(0))));
    }
    while j < changes.inserts.len()
        invariant
            j <= changes.inserts.len(),
            shadow@ == shadow1.union(inserted_path_set(changes.inserts@.take(j as int))),
            files@ == files1.difference(inserted_path_set(changes.inserts@.take(j as int))),
        decreases changes.inserts.len() - j,
    {
        let path = &changes.inserts[j].0;
        shadow.insert(path.clone());
        files.remove(path);
        proof {
            let seen = changes.inserts@.take(j as int);
            let insert = changes.inserts@[j as int];
            assert(changes.inserts@.take(j + 1) =~= seen.push(insert));
            lemma_inserted_path_set_push(seen, insert);
            assert(shadow@ =~= shadow1.union(inserted_path_set(seen.push(insert))));
            assert(files@ =~= files1.difference(inserted_path_set(seen.push(insert))));
        }
        j += 1;
    }
    proof {
        assert(changes.inserts@.take(changes.inserts.len() as int) =~= changes.inserts@);
        assert(shadow@ =~= estimated_after(old(shadow)@, *event));
        assert(files@ =~= invalidated_by(old(shadow)@, *event));
    }
    files
}

/// One command to the compiler's shadow map.
#[derive(Debug, Clone, Copy, PartialEq, Eq)]
pub enum ShadowCommand<'a> {
    /// Drop every overlay.
    ResetShadow,
    /// Drop the overlay of a path.
    UnmapShadow(&'a String),
    /// Overlay a path with a content.
    MapShadow(&'a String, &'a Vec<u8>),
}

/// The command that drops every overlay, where `event` is a `Sync`.
pub open spec fn reset_commands(event: MemoryEvent) -> Seq<ShadowCommand<'static>> {
    if event is Sync {
        seq![ShadowCommand::ResetShadow]
    } else {
        Seq::empty()
    }
}

/// One unmap command for each removed path, in order.
pub open spec fn unmap_commands(removes: Seq<String>) -> Seq<ShadowCommand<'static>> {
    Seq::new(removes.len(), |i: int| ShadowCommand::UnmapShadow(&removes[i]))
}

/// One map command for each written path, in order.
pub open spec fn map_commands(inserts: Seq<(String, Vec<u8>)>) -> Seq<ShadowCommand<'static>> {
    Seq::new(inserts.len(), |i: int| ShadowCommand::MapShadow(&inserts[i].0, &inserts[i].1))
}

/// The commands that project `event` onto the compiler: for a `Sync` first a
/// reset, then an unmap for each remove, then a map for each insert.
pub open spec fn projection(event: MemoryEvent) -> Seq<ShadowCommand<'static>> {
    reset_commands(event) + unmap_commands(event.spec_changes().removes@) + map_commands(
        event.spec_changes().inserts@,
    )
}

/// The commands that project `event` onto the compiler, in the order in
/// which they are to be performed. A command that the compiler refuses is
/// passed over: the next `Sync` restores agreement.
pub fn project<'a>(event: &'a MemoryEvent) -> (commands: Vec<ShadowCommand<'a>>)
    ensures
        commands@ == projection(*event),
{
    let mut commands: Vec<ShadowCommand<'a>> = Vec::new();
    if event.is_sync() {
        commands.push(ShadowCommand::ResetShadow);
    }
    assert(commands@ =~= reset_commands(*event));
    let changes = event.changes();

    let mut i: usize = 0;
    assert(commands@ =~= reset_commands(*event) + unmap_commands(changes.removes@.take(0)));
    while i < changes.removes.len()
        invariant
            i <= changes.removes.len(),
            commands@ == reset_commands(*event) + unmap_commands(changes.removes@.take(i as int)),
        decreases changes.removes.len() - i,
    {
        commands.push(ShadowCommand::UnmapShadow(&changes.removes[i]));
        i += 1;
        assert(commands@ =~= reset_commands(*event) + unmap_commands(
            changes.removes@.take(i as int),
        ));
    }
    assert(changes.removes@.take(changes.removes.len() as int) =~= changes.removes@);

    let ghost head = commands@;
    let mut j: usize = 0;
    assert(commands@ =~= head + map_commands(changes.inserts@.take(0)));
    while j < changes.inserts.len()
        invariant
            j <= changes.inserts.len(),
            commands@ == head + map_commands(changes.inserts@.take(j as int)),
        decreases changes.inserts.len() - j,
    {
        let insert = &changes.inserts[j];
        commands.push(ShadowCommand::MapShadow(&insert.0, &insert.1));
        j += 1;
        assert(commands@ =~= head + map_commands(changes.inserts@.take(j as int)));
    }
    assert(changes.inserts@.take(changes.inserts.len() as int) =~= changes.inserts@);
    commands
}

/// The compiler's shadow map after one command that it accepts.
pub open spec fn shadow_step(shadow: Map<Seq<char>, Seq<u8>>, command: ShadowCommand) -> Map<
    Seq<char>,
    Seq<u8>,
> {
    match command {
        ShadowCommand::ResetShadow => Map::empty(),
        ShadowCommand::UnmapShadow(path) => shadow.remove(path@),
        ShadowCommand::MapShadow(path, content) => shadow.insert(path@, content@),
    }
}

/// The compiler's shadow map after `commands`, performed in order, when it
/// was `shadow` before and the compiler accepts each command.
pub open spec fn shadow_after(shadow: Map<Seq<char>, Seq<u8>>, commands: Seq<ShadowCommand>) -> Map<
    Seq<char>,
    Seq<u8>,
>
    decreases commands.len(),
{
    if commands.len() == 0 {
        shadow
    } else {
        shadow_step(shadow_after(shadow, commands.drop_last()), commands.last())
    }
}

/// Performing `first + second` is performing `first`, then `second`.
pub proof fn lemma_shadow_after_append(
    shadow: Map<Seq<char>, Seq<u8>>,
    first: Seq<ShadowCommand>,
    second: Seq<ShadowCommand>,
)
    ensures
        shadow_after(shadow, first + second) == shadow_after(shadow_after(shadow, first), second),
    decreases second.len(),
{
    if second.len() == 0 {
        assert(first + second =~= first);
    } else {
        assert((first + second).drop_last() =~= first + second.drop_last());
        assert((first + second).last() == second.last());
        lemma_shadow_after_append(shadow, first, second.drop_last());
    }
}

/// Unmapping from the empty map leaves it empty.
pub proof fn lemma_unmaps_keep_empty(removes: Seq<String>)
    ensures
        shadow_after(Map::empty(), unmap_commands(removes)) == Map::<Seq<char>, Seq<u8>>::empty(),
    decreases removes.len(),
{
    let commands = unmap_commands(removes);
    if removes.len() > 0 {
        assert(commands.drop_last() =~= unmap_commands(removes.drop_last()));
        lemma_unmaps_keep_empty(removes.drop_last());
        assert(shadow_after(Map::empty(), commands) =~= Map::<Seq<char>, Seq<u8>>::empty());
    }
}

/// Mapping adds exactly the written paths to the map's domain.
pub proof fn lemma_maps_extend_domain(
    shadow: Map<Seq<char>, Seq<u8>>,
    inserts: Seq<(String, Vec<u8>)>,
)
    ensures
        shadow_after(shadow, map_commands(inserts)).dom() == shadow.dom().union(
            inserted_path_set(inserts),
        ),
    decreases inserts.len(),
{
    let commands = map_commands(inserts);
    if inserts.len() == 0 {
        assert(inserted_path_set(inserts) =~= Set::<Seq<char>>::empty());
        assert(shadow.dom().union(inserted_path_set(inserts)) =~= shadow.dom());
    } else {
        let front = inserts.drop_last();
        assert(commands.drop_last() =~= map_commands(front));
        lemma_maps_extend_domain(shadow, front);
        lemma_inserted_path_set_push(front, inserts.last());
        assert(front.push(inserts.last()) =~= inserts);
        assert(shadow_after(shadow, commands).dom() =~= shadow.dom().union(
            inserted_path_set(inserts),
        ));
    }
}

/// What a `Sync` of `changes` leaves in the compiler's shadow map, whatever
/// was there before: the written paths, each with the content that was
/// written last.
pub open spec fn sync_image(changes: FileChangeSet) -> Map<Seq<char>, Seq<u8>> {
    shadow_after(Map::empty(), map_commands(changes.inserts@))
}

/// A `Sync` replaces the compiler's shadow map: the outcome does not depend
/// on the map before.
pub proof fn lemma_sync_replaces_shadow(shadow: Map<Seq<char>, Seq<u8>>, changes: FileChangeSet)
    ensures
        shadow_after(shadow, projection(MemoryEvent::Sync(changes))) == sync_image(changes),
{
    let event = MemoryEvent::Sync(changes);
    let reset = reset_commands(event);
    let unmaps = unmap_commands(changes.removes@);
    let maps = map_commands(changes.inserts@);
    assert(reset.drop_last() =~= Seq::<ShadowCommand>::empty());
    assert(shadow_after(shadow, reset) == Map::<Seq<char>, Seq<u8>>::empty());
    lemma_shadow_after_append(shadow, reset, unmaps);
    lemma_unmaps_keep_empty(changes.removes@);
    lemma_shadow_after_append(shadow, reset + unmaps, maps);
}

/// After a `Sync` has been projected onto the compiler, the paths of the
/// compiler's shadow map are exactly the paths that the event writes.
pub proof fn lemma_sync_sets_shadow_paths(shadow: Map<Seq<char>, Seq<u8>>, changes: FileChangeSet)
    ensures
        shadow_after(shadow, projection(MemoryEvent::Sync(changes))).dom()
            == changes.inserted_paths(),
        estimated_after(shadow.dom(), MemoryEvent::Sync(changes)) == changes.inserted_paths(),
{
    lemma_sync_replaces_shadow(shadow, changes);
    lemma_maps_extend_domain(Map::empty(), changes.inserts@);
    assert(Map::<Seq<char>, Seq<u8>>::empty().dom().union(changes.inserted_paths())
        =~= changes.inserted_paths());
}

/// Applying a `Sync` twice is applying it once: the compiler's shadow map and
/// the actor's estimate are the same after the second time as after the
/// first.
pub proof fn lemma_sync_is_idempotent(
    shadow: Map<Seq<char>, Seq<u8>>,
    estimated: Set<Seq<char>>,
    changes: FileChangeSet,
)
    ensures
        ({
            let event = MemoryEvent::Sync(changes);
            let once = shadow_after(shadow, projection(event));
            &&& shadow_after(once, projection(event)) == once
            &&& estimated_after(estimated_after(estimated, event), event) == estimated_after(
                estimated,
                event,
            )
        }),
{
    let event = MemoryEvent::Sync(changes);
    lemma_sync_replaces_shadow(shadow, changes);
    lemma_sync_replaces_shadow(shadow_after(shadow, projection(event)), changes);
}

/// An `Update` without removes and without inserts changes neither the
/// compiler's shadow map nor the actor's estimate, and invalidates nothing.
pub proof fn lemma_empty_update_keeps_shadow(
    shadow: Map<Seq<char>, Seq<u8>>,
    estimated: Set<Seq<char>>,
    changes: FileChangeSet,
)
    requires
        changes.removes@.len() == 0,
        changes.inserts@.len() == 0,
    ensures
        ({
            let event = MemoryEvent::Update(changes);
            &&& projection(event) == Seq::<ShadowCommand>::empty()
            &&& shadow_after(shadow, projection(event)) == shadow
            &&& estimated_after(estimated, event) == estimated
            &&& invalidated_by(estimated, event) == Set::<Seq<char>>::empty()
        }),
{
    let event = MemoryEvent::Update(changes);
    assert(projection(event) =~= Seq::<ShadowCommand>::empty());
    assert(changes.removed_paths() =~= Set::<Seq<char>>::empty());
    assert(changes.inserted_paths() =~= Set::<Seq<char>>::empty());
    assert(estimated_after(estimated, event) =~= estimated);
    assert(invalidated_by(estimated, event) =~= Set::<Seq<char>>::empty());
}

/// Unmapping takes exactly the removed paths out of the map's domain.
pub proof fn lemma_unmaps_shrink_domain(shadow: Map<Seq<char>, Seq<u8>>, removes: Seq<String>)
    ensures
        shadow_after(shadow, unmap_commands(removes)).dom() == shadow.dom().difference(
            path_set(removes),
        ),
    decreases removes.len(),
{
    let commands = unmap_commands(removes);
    if removes.len() == 0 {
        crate::paths::lemma_path_set_empty();
        assert(removes =~= Seq::<String>::empty());
        assert(shadow.dom().difference(path_set(removes)) =~= shadow.dom());
    } else {
        let front = removes.drop_last();
        assert(commands.drop_last() =~= unmap_commands(front));
        lemma_unmaps_shrink_domain(shadow, front);
        lemma_path_set_push(front, removes.last());
        assert(front.push(removes.last()) =~= removes);
        assert(shadow_after(shadow, commands).dom() =~= shadow.dom().difference(
            path_set(removes),
        ));
    }
}

/// The estimate follows the compiler's shadow map: what a memory event makes
/// of the estimate is what its projection makes of the paths of the map.
pub proof fn lemma_projection_tracks_estimate(shadow: Map<Seq<char>, Seq<u8>>, event: MemoryEvent)
    ensures
        shadow_after(shadow, projection(event)).dom() == estimated_after(shadow.dom(), event),
{
    match event {
        MemoryEvent::Sync(changes) => {
            lemma_sync_sets_shadow_paths(shadow, changes);
        },
        MemoryEvent::Update(changes) => {
            let unmaps = unmap_commands(changes.removes@);
            let maps = map_commands(changes.inserts@);
            assert(reset_commands(event) + unmaps =~= unmaps);
            lemma_shadow_after_append(shadow, unmaps, maps);
            lemma_unmaps_shrink_domain(shadow, changes.removes@);
            lemma_maps_extend_domain(shadow_after(shadow, unmaps), changes.inserts@);
        },
    }
}

} // verus!
