//! The protocol between the actor, the compiler and the file watcher, as a
//! whole.
//!
//! A memory edit reaches the compiler either at once or after a round trip
//! through the file watcher, which holds the edits that are under way in the
//! order in which they were sent and hands them back in that order. The
//! actor's estimate of the shadowed files runs ahead of the compiler's shadow
//! map by exactly the edits that are under way, and the dirty tick is the
//! tick of the latest of them.

use vstd::prelude::*;

use crate::actor::{applies_directly, step, ActorView};
use crate::notify::{CompilerInterrupt, FilesystemEvent, TaggedMemoryEvent};
use crate::shadow::{
    lemma_projection_tracks_estimate,
    projection,
    shadow_after,
};

verus! {

/// Whether the dirty tick of `state` is accounted for: it is zero, or the
/// file watcher still holds the upstream update that was sent at that tick.
/// `in_flight` holds the ticks of the upstream updates that were sent and
/// have not come back.
pub open spec fn clean_or_awaited<C>(state: ActorView<C>, in_flight: Set<usize>) -> bool {
    state.dirty_shadow_logical_tick != 0 ==> in_flight.contains(state.dirty_shadow_logical_tick)
}

/// The ticks of the upstream updates that are under way after `event` was
/// processed in the state `pre`: a memory event that is deferred adds the
/// new tick, an upstream update that comes back takes its tick out.
pub open spec fn in_flight_after<C, T>(
    pre: ActorView<C>,
    in_flight: Set<usize>,
    event: CompilerInterrupt<T>,
) -> Set<usize> {
    match event {
        CompilerInterrupt::Memory(memory) => if applies_directly(pre, memory) {
            in_flight
        } else {
            in_flight.insert((pre.logical_tick + 1) as usize)
        },
        CompilerInterrupt::Fs(
            Some(FilesystemEvent::UpstreamUpdate { upstream_event: Some(upstream), .. }),
        ) => in_flight.remove(upstream.opaque.logical_tick),
        _ => in_flight,
    }
}

/// Whatever is processed, and in whatever order the file watcher hands the
/// upstream updates back, the dirty tick stays accounted for; so in a
/// settled state, where no upstream update is under way, the dirty tick is
/// zero. A new actor is in such a state.
pub proof fn lemma_settled_state_is_clean<C, T>(
    pre: ActorView<C>,
    in_flight: Set<usize>,
    event: CompilerInterrupt<T>,
)
    requires
        clean_or_awaited(pre, in_flight),
    ensures
        clean_or_awaited(step(pre, event), in_flight_after(pre, in_flight, event)),
        in_flight_after(pre, in_flight, event) == Set::<usize>::empty() ==> step(
            pre,
            event,
        ).dirty_shadow_logical_tick == 0,
{
    let post = step(pre, event);
    let after = in_flight_after(pre, in_flight, event);
    if post.dirty_shadow_logical_tick != 0 {
        assert(after.contains(post.dirty_shadow_logical_tick));
    }
}

/// The actor together with what it acts on.
pub struct System<C> {
    /// The state of the actor.
    pub actor: ActorView<C>,
    /// The compiler's shadow map.
    pub compiler_shadow: Map<Seq<char>, Seq<u8>>,
    /// The memory edits that the file watcher holds, oldest first.
    pub in_flight: Seq<TaggedMemoryEvent>,
}

/// The compiler's shadow map once the edits `in_flight` have come back and
/// been applied, oldest first, when it is `shadow` now.
pub open spec fn pending_shadow(
    shadow: Map<Seq<char>, Seq<u8>>,
    in_flight: Seq<TaggedMemoryEvent>,
) -> Map<Seq<char>, Seq<u8>>
    decreases in_flight.len(),
{
    if in_flight.len() == 0 {
        shadow
    } else {
        shadow_after(
            pending_shadow(shadow, in_flight.drop_last()),
            projection(in_flight.last().event),
        )
    }
}

/// Whether the ticks of the edits under way grow from the oldest to the
/// latest, none of them zero and none of them ahead of the clock.
pub open spec fn ticks_in_order(in_flight: Seq<TaggedMemoryEvent>, clock: usize) -> bool {
    &&& forall|i: int, j: int|
        0 <= i < j < in_flight.len() ==> in_flight[i].logical_tick < in_flight[j].logical_tick
    &&& forall|i: int|
        0 <= i < in_flight.len() ==> 0 < (#[trigger] in_flight[i]).logical_tick <= clock
}

/// Whether the system is consistent:
/// - the estimate holds the paths that the compiler's shadow map will hold
///   once the edits under way have been applied;
/// - the dirty tick is zero where no edit is under way, and else the tick of
///   the latest of them;
/// - the ticks of the edits under way are in order.
pub open spec fn consistent<C>(system: System<C>) -> bool {
    &&& system.actor.estimated_shadow_files == pending_shadow(
        system.compiler_shadow,
        system.in_flight,
    ).dom()
    &&& system.in_flight.len() == 0 ==> system.actor.dirty_shadow_logical_tick == 0
    &&& system.in_flight.len() > 0 ==> system.actor.dirty_shadow_logical_tick
        == system.in_flight.last().logical_tick
    &&& ticks_in_order(system.in_flight, system.actor.logical_tick)
}

/// Whether `event` can come now: an upstream update that comes back is the
/// oldest of the edits under way.
pub open spec fn in_turn<C, T>(system: System<C>, event: CompilerInterrupt<T>) -> bool {
    event matches CompilerInterrupt::Fs(
        Some(FilesystemEvent::UpstreamUpdate { upstream_event: Some(upstream), .. }),
    ) ==> system.in_flight.len() > 0 && upstream.opaque == system.in_flight[0]
}

/// The system after the actor has processed `event` and the loop has
/// performed the reaction, the compiler accepting each command.
pub open spec fn system_step<C, T>(system: System<C>, event: CompilerInterrupt<T>) -> System<C> {
    let actor = step(system.actor, event);
    match event {
        CompilerInterrupt::Memory(memory) => if applies_directly(system.actor, memory) {
            System {
                actor,
                compiler_shadow: shadow_after(system.compiler_shadow, projection(memory)),
                in_flight: system.in_flight,
            }
        } else {
            System {
                actor,
                compiler_shadow: system.compiler_shadow,
                in_flight: system.in_flight.push(
                    TaggedMemoryEvent { logical_tick: actor.logical_tick, event: memory },
                ),
            }
        },
        CompilerInterrupt::Fs(
            Some(FilesystemEvent::UpstreamUpdate { upstream_event: Some(upstream), .. }),
        ) => System {
            actor,
            compiler_shadow: shadow_after(
                system.compiler_shadow,
                projection(upstream.opaque.event),
            ),
            in_flight: system.in_flight.skip(1),
        },
        _ => System { actor, compiler_shadow: system.compiler_shadow, in_flight: system.in_flight },
    }
}

/// Applying the oldest edit now and the rest later gives what applying all
/// of them later gives.
pub proof fn lemma_pending_shadow_head(
    shadow: Map<Seq<char>, Seq<u8>>,
    in_flight: Seq<TaggedMemoryEvent>,
)
    requires
        in_flight.len() > 0,
    ensures
        pending_shadow(shadow_after(shadow, projection(in_flight[0].event)), in_flight.skip(1))
            == pending_shadow(shadow, in_flight),
    decreases in_flight.len(),
{
    let head = shadow_after(shadow, projection(in_flight[0].event));
    let rest = in_flight.skip(1);
    let front = in_flight.drop_last();
    if in_flight.len() == 1 {
        assert(pending_shadow(head, rest) == head);
        assert(pending_shadow(shadow, front) == shadow);
        assert(in_flight.last() == in_flight[0]);
    } else {
        lemma_pending_shadow_head(shadow, front);
        assert(front[0] == in_flight[0]);
        assert(rest.drop_last() =~= front.skip(1));
        assert(rest.last() == in_flight.last());
        assert(pending_shadow(head, rest) == shadow_after(
            pending_shadow(head, rest.drop_last()),
            projection(rest.last().event),
        ));
    }
}

/// A system stays consistent, whatever the actor processes, as long as the
/// file watcher hands the edits back in the order in which it got them.
pub proof fn lemma_system_stays_consistent<C, T>(system: System<C>, event: CompilerInterrupt<T>)
    requires
        consistent(system),
        in_turn(system, event),
        system.actor.logical_tick < usize::MAX,
    ensures
        consistent(system_step(system, event)),
{
    let next = system_step(system, event);
    let pending = pending_shadow(system.compiler_shadow, system.in_flight);
    match event {
        CompilerInterrupt::Memory(memory) => {
            if applies_directly(system.actor, memory) {
                assert(system.in_flight.len() == 0);
                lemma_projection_tracks_estimate(system.compiler_shadow, memory);
            } else {
                assert(next.in_flight.drop_last() =~= system.in_flight);
                lemma_projection_tracks_estimate(pending, memory);
                assert forall|i: int, j: int| 0 <= i < j < next.in_flight.len() implies next.in_flight[i].logical_tick
                    < next.in_flight[j].logical_tick by {
                    if j < system.in_flight.len() {
                    } else {
                        assert(next.in_flight[i] == system.in_flight[i]);
                    }
                }
            }
        },
        CompilerInterrupt::Fs(
            Some(FilesystemEvent::UpstreamUpdate { upstream_event: Some(upstream), .. }),
        ) => {
            lemma_pending_shadow_head(system.compiler_shadow, system.in_flight);
            if system.in_flight.len() > 1 {
                assert(next.in_flight.last() == system.in_flight.last());
                assert(system.in_flight[0].logical_tick < system.in_flight.last().logical_tick);
            }
            assert forall|i: int| 0 <= i < next.in_flight.len() implies next.in_flight[i]
                == system.in_flight[i + 1] by {}
        },
        _ => {},
    }
}

/// In a settled system, where no edit is under way, the dirty tick is zero
/// and the estimate holds exactly the paths of the compiler's shadow map.
pub proof fn lemma_settled_system_agrees<C>(system: System<C>)
    requires
        consistent(system),
        system.in_flight.len() == 0,
    ensures
        system.actor.dirty_shadow_logical_tick == 0,
        system.actor.estimated_shadow_files == system.compiler_shadow.dom(),
{
}

/// A new actor and a compiler without overlays make a consistent system.
pub proof fn lemma_new_system_is_consistent<C>(system: System<C>)
    requires
        system.actor.estimated_shadow_files == Set::<Seq<char>>::empty(),
        system.actor.dirty_shadow_logical_tick == 0,
        system.compiler_shadow == Map::<Seq<char>, Seq<u8>>::empty(),
        system.in_flight.len() == 0,
    ensures
        consistent(system),
{
    assert(system.compiler_shadow.dom() =~= Set::<Seq<char>>::empty());
}


/// The state of the actor after it has processed `events` in order.
pub open spec fn after_events<C, T>(
    pre: ActorView<C>,
    events: Seq<CompilerInterrupt<T>>,
) -> ActorView<C>
    decreases events.len(),
{
    if events.len() == 0 {
        pre
    } else {
        step(after_events(pre, events.drop_last()), events.last())
    }
}

/// The state of the actor after a batch: the clock advances once when the
/// loop wakes up, and then the events of the batch are processed in order.
pub open spec fn after_batch<C, T>(
    pre: ActorView<C>,
    events: Seq<CompilerInterrupt<T>>,
) -> ActorView<C> {
    after_events(
        ActorView { logical_tick: (pre.logical_tick + 1) as usize, ..pre },
        events,
    )
}

/// The clock counts the processed events: after any number of events it has
/// advanced by exactly that number.
pub proof fn lemma_clock_counts_events<C, T>(pre: ActorView<C>, events: Seq<CompilerInterrupt<T>>)
    requires
        pre.logical_tick + events.len() <= usize::MAX,
    ensures
        after_events(pre, events).logical_tick == pre.logical_tick + events.len(),
    decreases events.len(),
{
    if events.len() > 0 {
        lemma_clock_counts_events(pre, events.drop_last());
    }
}

/// A batch of any length advances the clock by more than one for each of
/// its events: once for the batch and once for each event. So the clock
/// never falls, and ticks that are stamped later are greater.
pub proof fn lemma_batch_advances_clock<C, T>(pre: ActorView<C>, events: Seq<CompilerInterrupt<T>>)
    requires
        pre.logical_tick + 1 + events.len() <= usize::MAX,
    ensures
        after_batch(pre, events).logical_tick == pre.logical_tick + 1 + events.len(),
        after_batch(pre, events).logical_tick > pre.logical_tick,
        forall|n: int|
            0 <= n <= events.len() ==> (#[trigger] after_batch(
                pre,
                events.take(n),
            )).logical_tick == pre.logical_tick + 1 + n,
{
    let woken = ActorView { logical_tick: (pre.logical_tick + 1) as usize, ..pre };
    lemma_clock_counts_events(woken, events);
    assert forall|n: int| 0 <= n <= events.len() implies (#[trigger] after_batch(
        pre,
        events.take(n),
    )).logical_tick == pre.logical_tick + 1 + n by {
        lemma_clock_counts_events(woken, events.take(n));
    }
}

} // verus!
