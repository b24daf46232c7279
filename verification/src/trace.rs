//! Runs of the protocol over whole input sequences, and the ordering laws
//! that hold along them.
//!
//! The workers report about each node id in lifecycle order: the registry
//! operations in [`crate::registry`] admit one registration per id while it
//! is tracked and none after its teardown, so a connection is registered
//! once, upgraded or given up once, traffic flows only while the peer runs,
//! and teardown is reported once. One door the registries leave open: after
//! a failed upgrade the id is no longer tracked and may register afresh.
//! Input sequences without such a second attempt are called orderly here;
//! the laws below speak of those runs, and along them the protocol's
//! emitted events keep the same order per id.

use vstd::prelude::*;
use crate::message::SendMsg;
use crate::supervisor::Command;
use crate::supervisor::Direction;
use crate::supervisor::Event;
use crate::supervisor::Input;
use crate::supervisor::Internal;
use crate::supervisor::Output;
use crate::supervisor::ProtocolModel;
use crate::supervisor::NodeId;
use crate::supervisor::step_outputs;
use crate::supervisor::step_state;
use crate::supervisor::stop_reason;

verus! {

/// The protocol state after a whole input sequence.
pub open spec fn run_state(p: ProtocolModel, inputs: Seq<Input>) -> ProtocolModel
    decreases inputs.len(),
{
    if inputs.len() == 0 {
        p
    } else {
        step_state(run_state(p, inputs.drop_last()), inputs.last())
    }
}

/// Everything the protocol dispatched over a whole input sequence, in order.
pub open spec fn run_outputs(p: ProtocolModel, inputs: Seq<Input>) -> Seq<Output>
    decreases inputs.len(),
{
    if inputs.len() == 0 {
        seq![]
    } else {
        run_outputs(p, inputs.drop_last())
            + step_outputs(run_state(p, inputs.drop_last()), inputs.last())
    }
}

/// Where a node id stands in its lifecycle, as reported by the workers.
pub enum Stage {
    /// Never seen.
    Idle,
    /// Connection registered, upgrade pending.
    Pending,
    /// Peer running.
    Running,
    /// Upgrade failed or peer torn down: terminal.
    Gone,
}

/// Whether the input is a worker report about the id's lifecycle.
pub open spec fn concerns(input: Input, id: NodeId) -> bool {
    match input {
        Input::Accepted(i) => i == id,
        Input::Connected(i) => i == id,
        Input::Upgraded(i) => i == id,
        Input::UpgradeFailed(i, _) => i == id,
        Input::Stopped(i, _) => i == id,
        Input::Receive(i, _) => i == id,
        Input::Command(_) => false,
        Input::DuplicateConnRejected(_, _) => false,
    }
}

/// The id's next stage when the input arrives, or `None` where no worker
/// could report such a thing at this stage.
pub open spec fn stage_step(s: Stage, input: Input, id: NodeId) -> Option<Stage> {
    if !concerns(input, id) {
        Some(s)
    } else {
        match (input, s) {
            (Input::Accepted(_), Stage::Idle) => Some(Stage::Pending),
            (Input::Connected(_), Stage::Idle) => Some(Stage::Pending),
            (Input::Upgraded(_), Stage::Pending) => Some(Stage::Running),
            (Input::UpgradeFailed(_, _), Stage::Pending) => Some(Stage::Gone),
            (Input::Receive(_, _), Stage::Running) => Some(Stage::Running),
            (Input::Stopped(_, _), Stage::Running) => Some(Stage::Gone),
            _ => None,
        }
    }
}

/// The id's stage after a whole input sequence, or `None` as soon as one
/// report came out of lifecycle order.
pub open spec fn stage_run(inputs: Seq<Input>, id: NodeId) -> Option<Stage>
    decreases inputs.len(),
{
    if inputs.len() == 0 {
        Some(Stage::Idle)
    } else {
        match stage_run(inputs.drop_last(), id) {
            Some(s) => stage_step(s, inputs.last(), id),
            None => None,
        }
    }
}

/// Input sequences the workers can actually produce for the id.
pub open spec fn orderly(inputs: Seq<Input>, id: NodeId) -> bool {
    stage_run(inputs, id) is Some
}

/// Whether the event mentions the id.
pub open spec fn event_mentions(e: Event, id: NodeId) -> bool {
    match e {
        Event::Connected(i, _) => i == id,
        Event::Disconnected(i, _) => i == id,
        Event::Message(i, _) => i == id,
        Event::Upgraded(i) => i == id,
        Event::UpgradeFailed(i, _) => i == id,
    }
}

/// The events among the outputs that mention the id, in emission order.
pub open spec fn events_for(outs: Seq<Output>, id: NodeId) -> Seq<Event>
    decreases outs.len(),
{
    if outs.len() == 0 {
        seq![]
    } else {
        let rest = events_for(outs.drop_last(), id);
        match outs.last() {
            Output::Event(e) => if event_mentions(e, id) {
                rest.push(e)
            } else {
                rest
            },
            Output::Internal(_) => rest,
        }
    }
}

/// The id's next stage when the event is emitted, or `None` where the event
/// would be out of lifecycle order.
pub open spec fn event_stage_step(s: Stage, e: Event, id: NodeId) -> Option<Stage> {
    if !event_mentions(e, id) {
        Some(s)
    } else {
        match (e, s) {
            (Event::Connected(_, _), Stage::Idle) => Some(Stage::Pending),
            (Event::Upgraded(_), Stage::Pending) => Some(Stage::Running),
            (Event::UpgradeFailed(_, _), Stage::Pending) => Some(Stage::Gone),
            (Event::Message(_, _), Stage::Running) => Some(Stage::Running),
            (Event::Disconnected(_, _), Stage::Running) => Some(Stage::Gone),
            _ => None,
        }
    }
}

/// The stage reached by an event sequence, or `None` as soon as one event is
/// out of lifecycle order.
pub open spec fn event_stage_run(events: Seq<Event>, id: NodeId) -> Option<Stage>
    decreases events.len(),
{
    if events.len() == 0 {
        Some(Stage::Idle)
    } else {
        match event_stage_run(events.drop_last(), id) {
            Some(s) => event_stage_step(s, events.last(), id),
            None => None,
        }
    }
}

/// The event sequence is a prefix of
/// `Connected (Upgraded Message* Disconnected | UpgradeFailed)`.
pub open spec fn lifecycle_ordered(events: Seq<Event>, id: NodeId) -> bool {
    event_stage_run(events, id) is Some
}

/// The single event a lifecycle report makes the protocol emit.
pub open spec fn report_event(input: Input) -> Event {
    match input {
        Input::Accepted(id) => Event::Connected(id, Direction::Incoming),
        Input::Connected(id) => Event::Connected(id, Direction::Outgoing),
        Input::Upgraded(id) => Event::Upgraded(id),
        Input::UpgradeFailed(id, e) => Event::UpgradeFailed(id, e),
        Input::Stopped(id, report) => Event::Disconnected(id, stop_reason(report)),
        Input::Receive(id, m) => Event::Message(id, m),
        Input::Command(_) => arbitrary(),
        Input::DuplicateConnRejected(_, _) => arbitrary(),
    }
}

proof fn lemma_events_for_add(a: Seq<Output>, b: Seq<Output>, id: NodeId)
    ensures
        events_for(a + b, id) == events_for(a, id) + events_for(b, id),
    decreases b.len(),
{
    reveal_with_fuel(events_for, 2);
    if b.len() == 0 {
        assert(a + b =~= a);
        assert(events_for(b, id) =~= Seq::<Event>::empty());
        assert(events_for(a, id) + events_for(b, id) =~= events_for(a, id));
    } else {
        lemma_events_for_add(a, b.drop_last(), id);
        assert((a + b).drop_last() =~= a + b.drop_last());
        assert((a + b).last() == b.last());
        match b.last() {
            Output::Event(e) => {
                if event_mentions(e, id) {
                    assert(events_for(a + b, id)
                        =~= events_for(a, id) + events_for(b, id));
                } else {
                    assert(events_for(a + b, id)
                        =~= events_for(a, id) + events_for(b, id));
                }
            },
            Output::Internal(_) => {
                assert(events_for(a + b, id) =~= events_for(a, id) + events_for(b, id));
            },
        }
    }
}

proof fn lemma_events_for_one(o: Output, id: NodeId)
    ensures
        events_for(seq![o], id) == match o {
            Output::Event(e) => if event_mentions(e, id) {
                seq![e]
            } else {
                Seq::<Event>::empty()
            },
            Output::Internal(_) => Seq::<Event>::empty(),
        },
{
    reveal_with_fuel(events_for, 3);
    let s = seq![o];
    assert(s.drop_last() =~= Seq::<Output>::empty());
    assert(s.last() == o);
    match o {
        Output::Event(e) => {
            if event_mentions(e, id) {
                assert(events_for(s, id) =~= seq![e]);
            } else {
                assert(events_for(s, id) =~= Seq::<Event>::empty());
            }
        },
        Output::Internal(_) => {
            assert(events_for(s, id) =~= Seq::<Event>::empty());
        },
    }
}

/// One transition emits, about a given id, exactly one event for the id's
/// own lifecycle report, and nothing about it on any other input.
proof fn lemma_step_events(p: ProtocolModel, input: Input, id: NodeId)
    ensures
        concerns(input, id) ==> events_for(step_outputs(p, input), id)
            == seq![report_event(input)],
        !concerns(input, id) ==> events_for(step_outputs(p, input), id)
            == Seq::<Event>::empty(),
{
    reveal_with_fuel(events_for, 3);
    let outs = step_outputs(p, input);
    match input {
        Input::Accepted(i) => {
            let first = Output::Event(Event::Connected(i, Direction::Incoming));
            let second = Output::Internal(Internal::Upgrade(i));
            assert(outs =~= seq![first] + seq![second]);
            lemma_events_for_add(seq![first], seq![second], id);
            lemma_events_for_one(first, id);
            lemma_events_for_one(second, id);
            if i == id {
                assert(events_for(outs, id) =~= seq![report_event(input)]);
            } else {
                assert(events_for(outs, id) =~= Seq::<Event>::empty());
            }
        },
        Input::Connected(i) => {
            let first = Output::Event(Event::Connected(i, Direction::Outgoing));
            let second = Output::Internal(Internal::Upgrade(i));
            assert(outs =~= seq![first] + seq![second]);
            lemma_events_for_add(seq![first], seq![second], id);
            lemma_events_for_one(first, id);
            lemma_events_for_one(second, id);
            if i == id {
                assert(events_for(outs, id) =~= seq![report_event(input)]);
            } else {
                assert(events_for(outs, id) =~= Seq::<Event>::empty());
            }
        },
        Input::Command(c) => {
            match c {
                Command::Accept => {
                    lemma_events_for_one(Output::Internal(Internal::Accept), id);
                },
                Command::Connect(info) => {
                    lemma_events_for_one(Output::Internal(Internal::Connect(info)), id);
                },
                Command::Disconnect(i) => {
                    lemma_events_for_one(Output::Internal(Internal::Stop(i)), id);
                },
                Command::Msg(i, m) => {
                    if p.upgraded.contains(i) {
                        lemma_events_for_one(
                            Output::Internal(Internal::SendMessage(i, m)),
                            id,
                        );
                    }
                },
            }
            assert(events_for(outs, id) =~= Seq::<Event>::empty());
        },
        Input::DuplicateConnRejected(_, _) => {
            assert(events_for(outs, id) =~= Seq::<Event>::empty());
        },
        Input::Receive(i, m) => {
            lemma_events_for_one(Output::Event(Event::Message(i, m)), id);
            assert(outs =~= seq![Output::Event(Event::Message(i, m))]);
            if i == id {
                assert(events_for(outs, id) =~= seq![report_event(input)]);
            } else {
                assert(events_for(outs, id) =~= Seq::<Event>::empty());
            }
        },
        Input::Stopped(i, report) => {
            let e = Event::Disconnected(i, stop_reason(report));
            lemma_events_for_one(Output::Event(e), id);
            assert(outs =~= seq![Output::Event(e)]);
            if i == id {
                assert(events_for(outs, id) =~= seq![report_event(input)]);
            } else {
                assert(events_for(outs, id) =~= Seq::<Event>::empty());
            }
        },
        Input::Upgraded(i) => {
            lemma_events_for_one(Output::Event(Event::Upgraded(i)), id);
            assert(outs =~= seq![Output::Event(Event::Upgraded(i))]);
            if i == id {
                assert(events_for(outs, id) =~= seq![report_event(input)]);
            } else {
                assert(events_for(outs, id) =~= Seq::<Event>::empty());
            }
        },
        Input::UpgradeFailed(i, err) => {
            lemma_events_for_one(Output::Event(Event::UpgradeFailed(i, err)), id);
            assert(outs =~= seq![Output::Event(Event::UpgradeFailed(i, err))]);
            if i == id {
                assert(events_for(outs, id) =~= seq![report_event(input)]);
            } else {
                assert(events_for(outs, id) =~= Seq::<Event>::empty());
            }
        },
    }
}

/// A lifecycle report and the event it emits move the two stage machines in
/// step.
proof fn lemma_report_stage(s: Stage, input: Input, id: NodeId)
    requires
        concerns(input, id),
    ensures
        event_stage_step(s, report_event(input), id) == stage_step(s, input, id),
{
}

proof fn lemma_stage_match(p: ProtocolModel, inputs: Seq<Input>, id: NodeId)
    requires
        orderly(inputs, id),
    ensures
        event_stage_run(events_for(run_outputs(p, inputs), id), id) == stage_run(inputs, id),
    decreases inputs.len(),
{
    if inputs.len() == 0 {
        assert(run_outputs(p, inputs) =~= Seq::<Output>::empty());
        assert(events_for(Seq::<Output>::empty(), id) =~= Seq::<Event>::empty());
    } else {
        let pre = inputs.drop_last();
        let last = inputs.last();
        assert(stage_run(pre, id) is Some);
        lemma_stage_match(p, pre, id);
        let mid = run_state(p, pre);
        lemma_events_for_add(run_outputs(p, pre), step_outputs(mid, last), id);
        lemma_step_events(mid, last, id);
        let evs_pre = events_for(run_outputs(p, pre), id);
        let evs = events_for(run_outputs(p, inputs), id);
        if concerns(last, id) {
            lemma_report_stage(stage_run(pre, id)->Some_0, last, id);
            assert(evs =~= evs_pre.push(report_event(last)));
            assert(evs.drop_last() =~= evs_pre);
            assert(evs.last() == report_event(last));
        } else {
            assert(evs =~= evs_pre);
        }
    }
}

/// For every node id, the events the protocol emits about it, over any run
/// on worker reports in lifecycle order, are a prefix of
/// `Connected (Upgraded Message* Disconnected | UpgradeFailed)`.
pub proof fn lemma_lifecycle_event_order(p: ProtocolModel, inputs: Seq<Input>, id: NodeId)
    requires
        orderly(inputs, id),
    ensures
        lifecycle_ordered(events_for(run_outputs(p, inputs), id), id),
{
    lemma_stage_match(p, inputs, id);
}

/// The protocol's `upgraded` set tracks the id's stage exactly: the id is in
/// the set between its `Upgraded` report and its `Stopped` report, and never
/// otherwise.
pub proof fn lemma_upgraded_tracks_stage(inputs: Seq<Input>, id: NodeId)
    requires
        orderly(inputs, id),
    ensures
        run_state(ProtocolModel::init(), inputs).upgraded.contains(id)
            == (stage_run(inputs, id) == Some(Stage::Running)),
    decreases inputs.len(),
{
    if inputs.len() == 0 {
    } else {
        let pre = inputs.drop_last();
        assert(stage_run(pre, id) is Some);
        lemma_upgraded_tracks_stage(pre, id);
    }
}

/// An id enters the torn-down set only on its `Stopped` report, after which
/// its stage is terminal.
proof fn lemma_stopped_tracks_stage(inputs: Seq<Input>, id: NodeId)
    requires
        orderly(inputs, id),
    ensures
        run_state(ProtocolModel::init(), inputs).stopped.contains(id)
            ==> stage_run(inputs, id) == Some(Stage::Gone),
    decreases inputs.len(),
{
    if inputs.len() == 0 {
    } else {
        let pre = inputs.drop_last();
        assert(stage_run(pre, id) is Some);
        lemma_stopped_tracks_stage(pre, id);
    }
}

/// The running set and the torn-down set never meet: an id is upgraded only
/// while its stage is running, and it is marked stopped only once its stage
/// is terminal.
pub proof fn lemma_upgraded_stopped_disjoint(inputs: Seq<Input>, id: NodeId)
    requires
        orderly(inputs, id),
    ensures
        !(run_state(ProtocolModel::init(), inputs).upgraded.contains(id)
            && run_state(ProtocolModel::init(), inputs).stopped.contains(id)),
{
    lemma_upgraded_tracks_stage(inputs, id);
    lemma_stopped_tracks_stage(inputs, id);
}

/// The protocol's `connected` map mirrors the connection registry: the id is
/// in it exactly while its connection is pending upgrade — it enters on the
/// registration report and leaves when the upgrade succeeds or fails.
pub proof fn lemma_connected_tracks_stage(inputs: Seq<Input>, id: NodeId)
    requires
        orderly(inputs, id),
    ensures
        run_state(ProtocolModel::init(), inputs).connected.dom().contains(id)
            == (stage_run(inputs, id) == Some(Stage::Pending)),
    decreases inputs.len(),
{
    if inputs.len() == 0 {
    } else {
        let pre = inputs.drop_last();
        assert(stage_run(pre, id) is Some);
        lemma_connected_tracks_stage(pre, id);
    }
}

/// A `Msg` command for an id whose `Upgraded` report has not arrived, or
/// whose `Disconnected` is already past, produces no output at all: no send
/// order reaches the send worker, so no outbound write can happen.
pub proof fn lemma_msg_outside_window_dropped(
    inputs: Seq<Input>,
    k: int,
    id: NodeId,
    m: SendMsg,
)
    requires
        0 <= k < inputs.len(),
        inputs[k] == Input::Command(Command::Msg(id, m)),
        orderly(inputs.take(k), id),
        stage_run(inputs.take(k), id) != Some(Stage::Running),
    ensures
        step_outputs(run_state(ProtocolModel::init(), inputs.take(k)), inputs[k])
            == Seq::<Output>::empty(),
{
    lemma_upgraded_tracks_stage(inputs.take(k), id);
}

/// No input at all is an `Accept` command.
pub open spec fn no_accept_command(inputs: Seq<Input>) -> bool {
    forall|k: int| 0 <= k < inputs.len() ==> inputs[k] != Input::Command(Command::Accept)
}

/// Some dispatched output is the work order that unblocks the accept worker.
pub open spec fn has_accept_order(outs: Seq<Output>) -> bool {
    exists|k: int| 0 <= k < outs.len() && outs[k] == Output::Internal(Internal::Accept)
}

/// Without an `Accept` command among the inputs, the accept order is never
/// dispatched: the accept worker stays blocked and never consumes from the
/// transport's incoming stream.
pub proof fn lemma_no_accept_without_command(p: ProtocolModel, inputs: Seq<Input>)
    requires
        no_accept_command(inputs),
    ensures
        !has_accept_order(run_outputs(p, inputs)),
    decreases inputs.len(),
{
    if inputs.len() == 0 {
    } else {
        let pre = inputs.drop_last();
        assert(no_accept_command(pre)) by {
            assert(forall|k: int| 0 <= k < pre.len() ==> pre[k] == inputs[k]);
        }
        lemma_no_accept_without_command(p, pre);
        let outs_pre = run_outputs(p, pre);
        let last = inputs.last();
        let s = step_outputs(run_state(p, pre), last);
        assert(last != Input::Command(Command::Accept));
        assert(forall|j: int| 0 <= j < s.len()
            ==> s[j] != Output::Internal(Internal::Accept)) by {
            match last {
                Input::Command(c) => {
                    match c {
                        Command::Accept => assert(false),
                        Command::Connect(_) => {},
                        Command::Disconnect(_) => {},
                        Command::Msg(_, _) => {},
                    }
                },
                _ => {},
            }
        }
        assert forall|k: int| 0 <= k < run_outputs(p, inputs).len()
            implies run_outputs(p, inputs)[k] != Output::Internal(Internal::Accept) by {
            if k < outs_pre.len() {
                assert(run_outputs(p, inputs)[k] == outs_pre[k]);
                assert(!has_accept_order(outs_pre));
            } else {
                assert(run_outputs(p, inputs)[k] == s[k - outs_pre.len()]);
            }
        }
    }
}

/// How many `Disconnected` events for the id a sequence holds.
pub open spec fn count_disconnected(events: Seq<Event>, id: NodeId) -> nat
    decreases events.len(),
{
    if events.len() == 0 {
        0
    } else {
        count_disconnected(events.drop_last(), id) + (match events.last() {
            Event::Disconnected(i, _) => if i == id {
                1nat
            } else {
                0
            },
            _ => 0,
        })
    }
}

/// How many `Stopped` reports for the id a sequence holds.
pub open spec fn count_stopped(inputs: Seq<Input>, id: NodeId) -> nat
    decreases inputs.len(),
{
    if inputs.len() == 0 {
        0
    } else {
        count_stopped(inputs.drop_last(), id) + (match inputs.last() {
            Input::Stopped(i, _) => if i == id {
                1nat
            } else {
                0
            },
            _ => 0,
        })
    }
}

/// Exactly one `Disconnected` event for the id is emitted per `Stopped`
/// report about it: teardown is surfaced if and only if the stop worker
/// reported it.
pub proof fn lemma_disconnected_matches_stopped(p: ProtocolModel, inputs: Seq<Input>, id: NodeId)
    ensures
        count_disconnected(events_for(run_outputs(p, inputs), id), id)
            == count_stopped(inputs, id),
    decreases inputs.len(),
{
    if inputs.len() == 0 {
        assert(run_outputs(p, inputs) =~= Seq::<Output>::empty());
        assert(events_for(Seq::<Output>::empty(), id) =~= Seq::<Event>::empty());
    } else {
        let pre = inputs.drop_last();
        lemma_disconnected_matches_stopped(p, pre, id);
        let mid = run_state(p, pre);
        let last = inputs.last();
        lemma_events_for_add(run_outputs(p, pre), step_outputs(mid, last), id);
        lemma_step_events(mid, last, id);
        let evs_pre = events_for(run_outputs(p, pre), id);
        let evs = events_for(run_outputs(p, inputs), id);
        if concerns(last, id) {
            assert(evs =~= evs_pre.push(report_event(last)));
            assert(evs.drop_last() =~= evs_pre);
        } else {
            assert(evs =~= evs_pre);
        }
    }
}

/// Along reports in lifecycle order the id is stopped at most once, and not
/// at all while it is still idle, pending, or running.
proof fn lemma_stopped_at_most_once(inputs: Seq<Input>, id: NodeId)
    requires
        orderly(inputs, id),
    ensures
        count_stopped(inputs, id) <= 1,
        stage_run(inputs, id) != Some(Stage::Gone) ==> count_stopped(inputs, id) == 0,
    decreases inputs.len(),
{
    if inputs.len() == 0 {
    } else {
        let pre = inputs.drop_last();
        assert(stage_run(pre, id) is Some);
        lemma_stopped_at_most_once(pre, id);
    }
}

/// However many `Disconnect` commands the caller issues for an id, at most
/// one `Disconnected` event is emitted for it: the stop worker can give the
/// peer up only once, so only one `Stopped` report can arrive.
pub proof fn lemma_at_most_one_disconnected(p: ProtocolModel, inputs: Seq<Input>, id: NodeId)
    requires
        orderly(inputs, id),
    ensures
        count_disconnected(events_for(run_outputs(p, inputs), id), id) <= 1,
{
    lemma_disconnected_matches_stopped(p, inputs, id);
    lemma_stopped_at_most_once(inputs, id);
}

/// Whether the output is the `Upgraded` event for the id.
pub open spec fn is_upgraded_event(o: Output, id: NodeId) -> bool {
    o == Output::Event(Event::Upgraded(id))
}

/// Whether the output is a `Disconnected` event for the id.
pub open spec fn is_disconnected_event(o: Output, id: NodeId) -> bool {
    match o {
        Output::Event(e) => match e {
            Event::Disconnected(i, _) => i == id,
            _ => false,
        },
        _ => false,
    }
}

/// Whether the input is the stop worker's report about the id.
pub open spec fn is_stopped_report(input: Input, id: NodeId) -> bool {
    match input {
        Input::Stopped(i, _) => i == id,
        _ => false,
    }
}

/// `Upgraded(id)` is emitted on exactly one input: the upgrade worker's
/// success report, which the worker sends only after `complete_upgrade`
/// recorded the id in the peer registry. Likewise `Disconnected(id)` is
/// emitted exactly on the stop worker's report, which it sends only after
/// `release_peer` removed the id from the peer registry.
pub proof fn lemma_event_sources(p: ProtocolModel, input: Input, id: NodeId)
    ensures
        (exists|k: int| 0 <= k < step_outputs(p, input).len()
            && is_upgraded_event(#[trigger] step_outputs(p, input)[k], id))
            <==> input == Input::Upgraded(id),
        (exists|k: int| 0 <= k < step_outputs(p, input).len()
            && is_disconnected_event(#[trigger] step_outputs(p, input)[k], id))
            <==> is_stopped_report(input, id),
{
    let outs = step_outputs(p, input);
    if input == Input::Upgraded(id) {
        assert(is_upgraded_event(outs[0], id));
    }
    if is_stopped_report(input, id) {
        assert(is_disconnected_event(outs[0], id));
    }
}

} // verus!
