//! The connection over which this unit's own messages go out.

use vstd::prelude::*;

verus! {

/// What happens to the outgoing connection.
#[derive(Debug, Clone, Copy, PartialEq, Eq, Structural)]
pub enum LinkEvent {
    /// The component is to stop.
    Cancelled,
    /// A connection was made.
    Connected,
    /// No connection could be made.
    ConnectFailed,
    /// A second has passed since the connection failed or was lost.
    BackedOff,
    /// It is time to send what is queued.
    Tick,
    /// A message could not be sent.
    SendFailed,
}

/// What the component does next.
#[derive(Debug, Clone, Copy, PartialEq, Eq, Structural)]
pub enum LinkAction {
    /// End.
    Stop,
    /// Connect.
    Connect,
    /// Wait one second.
    BackOff,
    /// Throw away what was queued during the outage, and wait for the next tick.
    DiscardQueue,
    /// Send all that is queued, in its order.
    SendQueue,
}

/// What the component does about an event.
pub open spec fn link_action_of(event: LinkEvent) -> LinkAction {
    match event {
        LinkEvent::Cancelled => LinkAction::Stop,
        LinkEvent::Connected => LinkAction::DiscardQueue,
        LinkEvent::ConnectFailed => LinkAction::BackOff,
        LinkEvent::BackedOff => LinkAction::Connect,
        LinkEvent::Tick => LinkAction::SendQueue,
        LinkEvent::SendFailed => LinkAction::BackOff,
    }
}

/// What the component does about an event: it reconnects after a second whenever a
/// connection fails or is lost.
pub fn next_link_action(event: LinkEvent) -> (r: LinkAction)
    ensures
        r == link_action_of(event),
{
    match event {
        LinkEvent::Cancelled => LinkAction::Stop,
        LinkEvent::Connected => LinkAction::DiscardQueue,
        LinkEvent::ConnectFailed => LinkAction::BackOff,
        LinkEvent::BackedOff => LinkAction::Connect,
        LinkEvent::Tick => LinkAction::SendQueue,
        LinkEvent::SendFailed => LinkAction::BackOff,
    }
}

// ---------------------------------------------------------------------------
// Runs
// ---------------------------------------------------------------------------

/// The action of a run that comes after its first `k` events. A run begins by
/// connecting.
pub open spec fn action_at(events: Seq<LinkEvent>, k: int) -> LinkAction {
    if k == 0 {
        LinkAction::Connect
    } else {
        link_action_of(events[k - 1])
    }
}

/// The event is one that the action can come to.
pub open spec fn may_follow(action: LinkAction, event: LinkEvent) -> bool {
    match action {
        LinkAction::Stop => false,
        LinkAction::Connect => event == LinkEvent::Connected || event == LinkEvent::ConnectFailed
            || event == LinkEvent::Cancelled,
        LinkAction::BackOff => event == LinkEvent::BackedOff || event == LinkEvent::Cancelled,
        LinkAction::DiscardQueue => event == LinkEvent::Tick || event == LinkEvent::Cancelled,
        LinkAction::SendQueue => event == LinkEvent::Tick || event == LinkEvent::SendFailed
            || event == LinkEvent::Cancelled,
    }
}

/// Event `k` is one that the action before it can come to.
pub open spec fn fits_at(events: Seq<LinkEvent>, k: int) -> bool {
    may_follow(action_at(events, k), events[k])
}

/// The events are those of a run.
pub open spec fn is_link_run(events: Seq<LinkEvent>) -> bool {
    forall|k: int| 0 <= k < events.len() ==> #[trigger] fits_at(events, k)
}

/// The connection made by event `c` is still up after `k` events.
pub open spec fn up_since(events: Seq<LinkEvent>, c: int, k: int) -> bool {
    &&& 0 <= c < k
    &&& events[c] == LinkEvent::Connected
    &&& forall|j: int| c < j < k ==> #[trigger] events[j] == LinkEvent::Tick
}

/// The queue after an action: throwing it away and sending it both empty it.
pub open spec fn queue_after(action: LinkAction, queue: Seq<int>) -> Seq<int> {
    if action == LinkAction::DiscardQueue || action == LinkAction::SendQueue {
        Seq::empty()
    } else {
        queue
    }
}

/// What is queued after the first `k` events of a run, where `arrivals[j]` messages
/// arrive between its events `j - 1` and `j`. A message is known by that `j`.
pub open spec fn queue_at(events: Seq<LinkEvent>, arrivals: Seq<nat>, k: int) -> Seq<int>
    decreases k,
{
    if k <= 0 {
        Seq::empty()
    } else {
        queue_after(action_at(events, k - 1), queue_at(events, arrivals, k - 1)) + Seq::new(
            arrivals[k - 1],
            |i: int| k - 1,
        )
    }
}

/// Messages are sent only over a connection that is up, and only such as arrived after
/// it was made: what was queued before is never sent.
pub proof fn stale_messages_are_never_sent(events: Seq<LinkEvent>, arrivals: Seq<nat>, k: int)
    requires
        is_link_run(events),
        0 <= k <= events.len(),
        action_at(events, k) == LinkAction::SendQueue,
    ensures
        exists|c: int| #[trigger]
            up_since(events, c, k) && forall|i: int|
                0 <= i < queue_at(events, arrivals, k).len() ==> c < #[trigger] queue_at(
                    events,
                    arrivals,
                    k,
                )[i],
    decreases k,
{
    assert(fits_at(events, k - 1));
    if action_at(events, k - 1) == LinkAction::DiscardQueue {
        assert(up_since(events, k - 2, k));
    } else {
        stale_messages_are_never_sent(events, arrivals, k - 1);
        let c = choose|c: int| #[trigger] up_since(events, c, k - 1);
        assert(up_since(events, c, k));
    }
}

/// A connection that fails, or over which a message cannot be sent, is followed by a pause
/// of a second and then by a new connection; one that is made is followed by throwing
/// away what was queued before it. Nothing but a cancellation ends the component.
pub proof fn lost_connections_are_made_again(event: LinkEvent, r: LinkAction)
    requires
        call_ensures(next_link_action, (event,), r),
    ensures
        event == LinkEvent::ConnectFailed || event == LinkEvent::SendFailed ==> r
            == LinkAction::BackOff,
        event == LinkEvent::BackedOff ==> r == LinkAction::Connect,
        event == LinkEvent::Connected ==> r == LinkAction::DiscardQueue,
        event == LinkEvent::Tick ==> r == LinkAction::SendQueue,
        r == LinkAction::Stop <==> event == LinkEvent::Cancelled,
{
}

/// In a run, two attempts to connect are never made without the pause of a second in
/// between, and every attempt but the first one follows such a pause.
pub proof fn every_attempt_follows_a_pause(events: Seq<LinkEvent>, k: int)
    requires
        is_link_run(events),
        0 < k <= events.len(),
        action_at(events, k) == LinkAction::Connect,
    ensures
        events[k - 1] == LinkEvent::BackedOff,
        k > 1,
        action_at(events, k - 1) == LinkAction::BackOff,
        events[k - 2] == LinkEvent::ConnectFailed || events[k - 2] == LinkEvent::SendFailed,
{
    assert(fits_at(events, k - 1));
}

} // verus!
