//! What the supervisor of an actor decides: when to stop it, that a fresh one
//! always follows, and whose handles stand published meanwhile.

use vstd::prelude::*;

verus! {

/// What reaches the supervisor of an actor whose handles are an `H`.
#[derive(Debug, Clone, Copy, PartialEq, Eq)]
pub enum SupervisorEvent<H> {
    /// A fresh actor runs, behind these handles.
    Spawned { handles: H },
    /// Somebody asked for a fresh actor.
    RestartAsked,
    /// The actor's task ended, in good order or not.
    ActorEnded { failed: bool },
}

/// What the supervisor of an actor does next.
#[derive(Debug, Clone, Copy, PartialEq, Eq)]
pub enum SupervisorAction<H> {
    /// Publish these handles in place of those of the last actor, and wait for
    /// a restart to be asked for or the actor to end.
    Publish { handles: H },
    /// Tell the actor to stop, and wait until it did.
    Cancel,
    /// Start a fresh actor; a failure of the last one is reported first.
    Respawn { report: bool },
}

/// The action that an event calls for.
pub open spec fn action_for<H>(event: SupervisorEvent<H>) -> SupervisorAction<H> {
    match event {
        SupervisorEvent::Spawned { handles } => SupervisorAction::Publish { handles },
        SupervisorEvent::RestartAsked => SupervisorAction::Cancel,
        SupervisorEvent::ActorEnded { failed } => SupervisorAction::Respawn { report: failed },
    }
}

/// What stands published after an action: no action withdraws anything.
pub open spec fn published_after<H>(
    published: Option<H>,
    action: SupervisorAction<H>,
) -> Option<H> {
    match action {
        SupervisorAction::Publish { handles } => Some(handles),
        _ => published,
    }
}

/// What stands published once a run of events was answered.
pub open spec fn published_over<H>(
    published: Option<H>,
    events: Seq<SupervisorEvent<H>>,
) -> Option<H>
    decreases events.len(),
{
    if events.len() == 0 {
        published
    } else {
        published_after(
            published_over(published, events.drop_last()),
            action_for(events.last()),
        )
    }
}

/// The handles published over a run of events, in order.
pub open spec fn publications<H>(events: Seq<SupervisorEvent<H>>) -> Seq<H>
    decreases events.len(),
{
    if events.len() == 0 {
        Seq::empty()
    } else {
        match action_for(events.last()) {
            SupervisorAction::Publish { handles } => publications(events.drop_last()).push(handles),
            _ => publications(events.drop_last()),
        }
    }
}

/// What the supervisor does: a restart stops the actor first, and whenever an
/// actor has ended, asked or not, a fresh one follows. A panicking actor would
/// otherwise respawn silently forever, so a failure is reported. The handles
/// of a fresh actor replace the old ones directly, and those stay published
/// until then, so a client that connects meanwhile always finds an actor.
pub fn supervise<H>(event: SupervisorEvent<H>) -> (action: SupervisorAction<H>)
    ensures
        action == action_for(event),
        forall|published: Option<H>| published is Some ==> #[trigger] published_after(
            published,
            action,
        ) is Some,
{
    match event {
        SupervisorEvent::Spawned { handles } => SupervisorAction::Publish { handles },
        SupervisorEvent::RestartAsked => SupervisorAction::Cancel,
        SupervisorEvent::ActorEnded { failed } => SupervisorAction::Respawn { report: failed },
    }
}

/// Every actor that is spawned is published once, in order, and once one was
/// there is no moment without: what stands published is the latest of them.
pub proof fn law_a_client_always_finds_an_actor<H>(
    published: Option<H>,
    events: Seq<SupervisorEvent<H>>,
)
    ensures
        publications(events) == events.filter(
            |event: SupervisorEvent<H>| event is Spawned,
        ).map_values(|event: SupervisorEvent<H>| event->handles),
        published_over(published, events) == if publications(events).len() > 0 {
            Some(publications(events).last())
        } else {
            published
        },
        published is Some || (exists|i: int| 0 <= i < events.len() && #[trigger] events[i] is Spawned)
            ==> published_over(published, events) is Some,
    decreases events.len(),
{
    let spawned = |event: SupervisorEvent<H>| event is Spawned;
    let handles = |event: SupervisorEvent<H>| event->handles;
    reveal(Seq::filter);
    if events.len() > 0 {
        let front = events.drop_last();
        law_a_client_always_finds_an_actor(published, front);
        if events.last() is Spawned {
            assert(events.filter(spawned) == front.filter(spawned).push(events.last()));
            assert(events.filter(spawned).map_values(handles) =~= front.filter(spawned).map_values(
                handles,
            ).push(events.last()->handles));
        } else {
            assert forall|i: int| 0 <= i < events.len() && #[trigger] events[i] is Spawned
                implies 0 <= i < front.len() && front[i] is Spawned by {
            }
        }
    } else {
        assert(events.filter(spawned).map_values(handles) =~= Seq::empty());
    }
}

/// A restart only stops the actor; the fresh one comes when it has ended, as it
/// does after any other end, and exactly the failures are reported.
pub proof fn law_every_end_is_followed_by_a_start<H>(event: SupervisorEvent<H>)
    ensures
        event is ActorEnded <==> action_for(event) is Respawn,
        event is RestartAsked <==> action_for(event) is Cancel,
        event is Spawned <==> action_for(event) is Publish,
        event is ActorEnded ==> action_for(event)->report == event->failed,
{
}

} // verus!
