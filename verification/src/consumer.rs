//! The consumer of the request queue, as a machine: it is told what
//! happened and says what to do next. Receiving, decoding, publishing and
//! acknowledging are the caller's work; which of them comes when is decided
//! here.

use crate::batch::{lemma_none_resolved, reply_lines};
use crate::models::{RabbitMessage, RabbitMessageView};
use crate::task::TaskOutcomeView;
use crate::text::{join_lines, joined};
use vstd::prelude::*;

verus! {

/// Where the consumer stands with the message in hand, if it has one.
#[derive(Clone, Copy, Debug, PartialEq, Eq, Structural)]
pub enum ConsumerState {
    /// No message in hand; waiting for the next delivery.
    Receiving,
    /// A delivery came; its payload is being decoded.
    Parsing,
    /// The request is decoded; its songs are being resolved.
    Resolving { chat_id: i64 },
    /// The reply is made and on its way to the reply queue.
    Publishing,
    /// The reply is out; the request is being acknowledged.
    Acknowledging,
    /// The consumer has stopped for good.
    Halted,
}

/// What the caller reports back.
#[derive(Debug, Clone, PartialEq, Eq)]
pub enum Event {
    /// A delivery arrived.
    Delivered,
    /// The queue reported an error in place of a delivery.
    ReceiveFailed,
    /// The queue has no more deliveries and never will.
    Closed,
    /// The payload decoded to this request.
    Parsed(RabbitMessage),
    /// The payload is no request.
    Malformed,
    /// The songs were worked through; these are the reply lines.
    Resolved(Vec<String>),
    /// The songs could not be worked on at all.
    ResolveFailed,
    /// The reply was published.
    Published,
    /// The reply could not be published.
    PublishFailed,
    /// The request was acknowledged.
    Acknowledged,
    /// The request could not be acknowledged.
    AckFailed,
}

/// An `Event` as plain values.
pub enum EventView {
    Delivered,
    ReceiveFailed,
    Closed,
    Parsed(RabbitMessageView),
    Malformed,
    Resolved(Seq<Seq<char>>),
    ResolveFailed,
    Published,
    PublishFailed,
    Acknowledged,
    AckFailed,
}

impl View for Event {
    type V = EventView;

    open spec fn view(&self) -> EventView {
        match self {
            Event::Delivered => EventView::Delivered,
            Event::ReceiveFailed => EventView::ReceiveFailed,
            Event::Closed => EventView::Closed,
            Event::Parsed(message) => EventView::Parsed(message@),
            Event::Malformed => EventView::Malformed,
            Event::Resolved(lines) => EventView::Resolved(lines.deep_view()),
            Event::ResolveFailed => EventView::ResolveFailed,
            Event::Published => EventView::Published,
            Event::PublishFailed => EventView::PublishFailed,
            Event::Acknowledged => EventView::Acknowledged,
            Event::AckFailed => EventView::AckFailed,
        }
    }
}

/// What the caller is to do next.
#[derive(Debug, Clone, PartialEq, Eq)]
pub enum Action {
    /// Wait for the next delivery. Where this follows a failure, the
    /// message in hand is given up without an acknowledgement.
    Receive,
    /// Decode the payload of the delivery in hand.
    Parse,
    /// Resolve the songs that this text names.
    Resolve(String),
    /// Publish this reply.
    Publish(RabbitMessage),
    /// Acknowledge the delivery in hand.
    Acknowledge,
    /// Stop: the queue is closed.
    Finish,
    /// Stop with an error.
    Abort,
}

/// An `Action` as plain values.
pub enum ActionView {
    Receive,
    Parse,
    Resolve(Seq<char>),
    Publish(RabbitMessageView),
    Acknowledge,
    Finish,
    Abort,
}

impl View for Action {
    type V = ActionView;

    open spec fn view(&self) -> ActionView {
        match self {
            Action::Receive => ActionView::Receive,
            Action::Parse => ActionView::Parse,
            Action::Resolve(text) => ActionView::Resolve(text@),
            Action::Publish(message) => ActionView::Publish(message@),
            Action::Acknowledge => ActionView::Acknowledge,
            Action::Finish => ActionView::Finish,
            Action::Abort => ActionView::Abort,
        }
    }
}

/// The reply to the request of `chat_id`: its lines, joined.
pub open spec fn reply_model(chat_id: i64, lines: Seq<Seq<char>>) -> RabbitMessageView {
    RabbitMessageView { chat_id, text: joined(lines) }
}

/// The consumer's rule. A message goes from delivery through decoding,
/// resolving and publishing to its acknowledgement; a failure on the way
/// gives the message up and turns to the next one, but for a payload that
/// does not decode, which stops the consumer. `None` where `event` is not
/// one that can happen in `state`.
pub open spec fn step_model(state: ConsumerState, event: EventView) -> Option<
    (ConsumerState, ActionView),
> {
    match (state, event) {
        (ConsumerState::Receiving, EventView::Delivered) => Some(
            (ConsumerState::Parsing, ActionView::Parse),
        ),
        (ConsumerState::Receiving, EventView::ReceiveFailed) => Some(
            (ConsumerState::Receiving, ActionView::Receive),
        ),
        (ConsumerState::Receiving, EventView::Closed) => Some(
            (ConsumerState::Halted, ActionView::Finish),
        ),
        (ConsumerState::Parsing, EventView::Parsed(message)) => Some(
            (
                ConsumerState::Resolving { chat_id: message.chat_id },
                ActionView::Resolve(message.text),
            ),
        ),
        (ConsumerState::Parsing, EventView::Malformed) => Some(
            (ConsumerState::Halted, ActionView::Abort),
        ),
        (ConsumerState::Resolving { chat_id }, EventView::Resolved(lines)) => Some(
            (ConsumerState::Publishing, ActionView::Publish(reply_model(chat_id, lines))),
        ),
        (ConsumerState::Resolving { .. }, EventView::ResolveFailed) => Some(
            (ConsumerState::Receiving, ActionView::Receive),
        ),
        (ConsumerState::Publishing, EventView::Published) => Some(
            (ConsumerState::Acknowledging, ActionView::Acknowledge),
        ),
        (ConsumerState::Publishing, EventView::PublishFailed) => Some(
            (ConsumerState::Receiving, ActionView::Receive),
        ),
        (ConsumerState::Acknowledging, EventView::Acknowledged) => Some(
            (ConsumerState::Receiving, ActionView::Receive),
        ),
        (ConsumerState::Acknowledging, EventView::AckFailed) => Some(
            (ConsumerState::Receiving, ActionView::Receive),
        ),
        _ => None,
    }
}

/// Where a run of events leads from `state`: the state at its end, and
/// the actions on the way, one for each event. `None` where one of the
/// events cannot happen in the state reached before it.
pub open spec fn run_model(state: ConsumerState, events: Seq<EventView>) -> Option<
    (ConsumerState, Seq<ActionView>),
>
    decreases events.len(),
{
    if events.len() == 0 {
        Some((state, Seq::empty()))
    } else {
        match run_model(state, events.drop_last()) {
            Some((reached, actions)) => match step_model(reached, events.last()) {
                Some((next, action)) => Some((next, actions.push(action))),
                None => None,
            },
            None => None,
        }
    }
}

/// The state that a run ends in. Meant for runs that `run_model` accepts.
pub open spec fn run_state(state: ConsumerState, events: Seq<EventView>) -> ConsumerState {
    match run_model(state, events) {
        Some((reached, _)) => reached,
        None => state,
    }
}

/// The actions of a run. Meant for runs that `run_model` accepts.
pub open spec fn run_actions(state: ConsumerState, events: Seq<EventView>) -> Seq<ActionView> {
    match run_model(state, events) {
        Some((_, actions)) => actions,
        None => Seq::empty(),
    }
}

/// The reply to the request of `chat_id`: its lines, joined with line feeds.
pub fn reply_message(chat_id: i64, lines: &Vec<String>) -> (reply: RabbitMessage)
    ensures
        reply@ == reply_model(chat_id, lines.deep_view()),
{
    RabbitMessage { chat_id, text: join_lines(lines) }
}

impl ConsumerState {
    /// The state a consumer starts in.
    pub fn new() -> (state: ConsumerState)
        ensures
            state == ConsumerState::Receiving,
    {
        ConsumerState::Receiving
    }

    /// Takes what happened and says what to do next, and in which state.
    /// `None` where `event` cannot happen in this state; nothing changes
    /// then.
    pub fn step(self, event: Event) -> (next: Option<(ConsumerState, Action)>)
        ensures
            match next {
                Some((state, action)) => step_model(self, event@) == Some((state, action@)),
                None => step_model(self, event@) is None,
            },
    {
        match (self, event) {
            (ConsumerState::Receiving, Event::Delivered) => Some(
                (ConsumerState::Parsing, Action::Parse),
            ),
            (ConsumerState::Receiving, Event::ReceiveFailed) => Some(
                (ConsumerState::Receiving, Action::Receive),
            ),
            (ConsumerState::Receiving, Event::Closed) => Some(
                (ConsumerState::Halted, Action::Finish),
            ),
            (ConsumerState::Parsing, Event::Parsed(message)) => Some(
                (
                    ConsumerState::Resolving { chat_id: message.chat_id },
                    Action::Resolve(message.text),
                ),
            ),
            (ConsumerState::Parsing, Event::Malformed) => Some(
                (ConsumerState::Halted, Action::Abort),
            ),
            (ConsumerState::Resolving { chat_id }, Event::Resolved(lines)) => Some(
                (ConsumerState::Publishing, Action::Publish(reply_message(chat_id, &lines))),
            ),
            (ConsumerState::Resolving { .. }, Event::ResolveFailed) => Some(
                (ConsumerState::Receiving, Action::Receive),
            ),
            (ConsumerState::Publishing, Event::Published) => Some(
                (ConsumerState::Acknowledging, Action::Acknowledge),
            ),
            (ConsumerState::Publishing, Event::PublishFailed) => Some(
                (ConsumerState::Receiving, Action::Receive),
            ),
            (ConsumerState::Acknowledging, Event::Acknowledged) => Some(
                (ConsumerState::Receiving, Action::Receive),
            ),
            (ConsumerState::Acknowledging, Event::AckFailed) => Some(
                (ConsumerState::Receiving, Action::Receive),
            ),
            _ => None,
        }
    }
}

/// A request is acknowledged exactly when its reply was published, and a
/// reply is published exactly when the songs were worked through: no other
/// state and event lead to either.
pub proof fn lemma_acknowledged_iff_published(state: ConsumerState, event: EventView)
    ensures
        (step_model(state, event) matches Some((_, ActionView::Acknowledge))) <==> (state
            == ConsumerState::Publishing && event == EventView::Published),
        (step_model(state, event) matches Some((_, ActionView::Publish(_)))) <==> (state
            is Resolving && event is Resolved),
        (step_model(state, event) matches Some((ConsumerState::Publishing, _))) <==> (state
            is Resolving && event is Resolved),
        (step_model(state, event) matches Some((ConsumerState::Acknowledging, _))) <==> (state
            == ConsumerState::Publishing && event == EventView::Published),
{
}

/// A run holds the runs of its beginnings: the first `k` events lead to a
/// state, with the first `k` actions, and the next event is a step from
/// there.
pub proof fn lemma_run_prefix(state: ConsumerState, events: Seq<EventView>, k: int)
    requires
        run_model(state, events) is Some,
        0 <= k <= events.len(),
    ensures
        run_actions(state, events).len() == events.len(),
        run_model(state, events.take(k)) is Some,
        run_actions(state, events.take(k)) == run_actions(state, events).take(k),
        k < events.len() ==> step_model(run_state(state, events.take(k)), events[k]) == Some(
            (run_state(state, events.take(k + 1)), run_actions(state, events)[k]),
        ),
    decreases events.len(),
{
    let actions = run_actions(state, events);
    if events.len() == 0 {
        assert(events.take(k) =~= events);
        assert(actions.take(k) =~= actions);
    } else {
        let front = events.drop_last();
        let n = events.len() - 1;
        lemma_run_prefix(state, front, if k <= n { k } else { n });
        let front_actions = run_actions(state, front);
        assert(actions.drop_last() =~= front_actions);
        if k <= n {
            assert(front.take(k) =~= events.take(k));
            assert(front_actions.take(k) =~= actions.take(k));
            if k < n {
                assert(front.take(k + 1) =~= events.take(k + 1));
                assert(front[k] == events[k]);
            } else {
                assert(events.take(k) =~= front);
                assert(events.take(k + 1) =~= events);
            }
        } else {
            assert(events.take(k) =~= events);
            assert(actions.take(k) =~= actions);
        }
    }
}

/// Along every run from the start, a request is acknowledged exactly at
/// the event that its reply was published, and a reply is published
/// exactly at the event that the songs were worked through. That event
/// follows the decoded request at once, and the reply has the chat of that
/// request and the resolved lines joined.
pub proof fn lemma_run_acknowledges_published(events: Seq<EventView>, k: int)
    requires
        run_model(ConsumerState::Receiving, events) is Some,
        0 <= k < events.len(),
    ensures
        ({
            let actions = run_actions(ConsumerState::Receiving, events);
            &&& actions.len() == events.len()
            &&& actions[k] == ActionView::Acknowledge <==> events[k] == EventView::Published
            &&& actions[k] is Publish <==> events[k] is Resolved
            &&& events[k] == EventView::Published ==> k >= 1 && events[k - 1] is Resolved
            &&& events[k] is Resolved ==> k >= 1 && events[k - 1] is Parsed && actions[k]
                == ActionView::Publish(
                reply_model(events[k - 1]->Parsed_0.chat_id, events[k]->Resolved_0),
            )
        }),
{
    let start = ConsumerState::Receiving;
    lemma_run_prefix(start, events, k);
    if k == 0 {
        assert(events.take(0) =~= Seq::<EventView>::empty());
    } else {
        lemma_run_prefix(start, events, k - 1);
        assert(events.take(k - 1 + 1) =~= events.take(k));
    }
}

/// A request whose songs all failed is answered all the same: the reply
/// has the request's chat and an empty text, and once it is published the
/// request is acknowledged.
pub proof fn lemma_empty_reply_is_published(chat_id: i64, outcomes: Seq<TaskOutcomeView>)
    requires
        forall|i: int| 0 <= i < outcomes.len() ==> !(#[trigger] outcomes[i] is Resolved),
    ensures
        step_model(
            ConsumerState::Resolving { chat_id },
            EventView::Resolved(reply_lines(outcomes)),
        ) == Some(
            (
                ConsumerState::Publishing,
                ActionView::Publish(RabbitMessageView { chat_id, text: Seq::empty() }),
            ),
        ),
        step_model(ConsumerState::Publishing, EventView::Published) == Some(
            (ConsumerState::Acknowledging, ActionView::Acknowledge),
        ),
{
    lemma_none_resolved(outcomes);
}

/// A payload that does not decode stops the consumer, and a stopped
/// consumer takes no further event.
pub proof fn lemma_malformed_payload_halts(event: EventView)
    ensures
        step_model(ConsumerState::Parsing, EventView::Malformed) == Some(
            (ConsumerState::Halted, ActionView::Abort),
        ),
        step_model(ConsumerState::Halted, event) is None,
{
}

} // verus!
