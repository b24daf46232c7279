//! The protocol state machine at the heart of the supervisor.
//!
//! The main loop merges caller commands, worker reports and peer-inbound
//! messages into one stream of [`Input`]s and feeds them to
//! [`Protocol::transition`], a pure function of the state: it performs no
//! work itself, it only updates the state and hands back [`Output`]s — events
//! for the caller and work orders for the workers.

use vstd::prelude::*;
use std::collections::HashMap;
use std::collections::HashSet;
use crate::message::ReceiveMsg;
use crate::message::SendMsg;
use crate::transport::ConnectInfo;

verus! {

broadcast use vstd::std_specs::hash::group_hash_axioms;

/// Identity of a remote node, derived from its long-lived public key.
pub type NodeId = u64;

/// How a connection was established.
#[derive(Clone, Copy, Debug, PartialEq, Eq, Structural)]
pub enum Direction {
    /// Established by accepting on the listener.
    Incoming,
    /// Established by dialing the remote.
    Outgoing,
}

/// Why a peer was torn down or an upgrade did not complete.
#[derive(Clone, Copy, Debug, PartialEq, Eq, Structural)]
pub enum Reason {
    /// Ordinary teardown with nothing to report.
    Done,
    /// No pending connection was registered under the id.
    ConnectionNotFound,
    /// The peer could not be built from the connection.
    PeerBuildFailed,
    /// The peer was built but could not be started.
    PeerRunFailed,
    /// Stopping the peer reported an error.
    StopFailed,
    /// The peer's inbound channel closed on its own.
    PeerChannelClosed,
    /// Closing a rejected duplicate connection reported an error.
    CloseFailed,
}

/// Control instructions the caller hands to the supervisor.
#[derive(Clone, Debug, PartialEq)]
pub enum Command {
    /// Unblock one pending inbound connection.
    Accept,
    /// Dial the remote described by the info.
    Connect(ConnectInfo),
    /// Tear down the peer known under the id.
    Disconnect(NodeId),
    /// Deliver the message to the peer known under the id.
    Msg(NodeId, SendMsg),
}

/// Significant happenings in the p2p subsystem, published to the caller.
#[derive(Clone, Debug, PartialEq)]
pub enum Event {
    /// A physical connection is in place, not yet a peer.
    Connected(NodeId, Direction),
    /// The peer was torn down, on command or on its own.
    Disconnected(NodeId, Reason),
    /// An inbound message arrived from a running peer.
    Message(NodeId, ReceiveMsg),
    /// The connection was promoted to a running peer, ready for `Msg`.
    Upgraded(NodeId),
    /// The promotion failed; the id is no longer tracked.
    UpgradeFailed(NodeId, Reason),
}

/// Work orders the main loop sends to the worker subroutines.
#[derive(Clone, Debug, PartialEq)]
pub enum Internal {
    /// Tell the accept worker to pull one inbound connection.
    Accept,
    /// Tell the connect worker to dial.
    Connect(ConnectInfo),
    /// Tell the send worker to deliver a message.
    SendMessage(NodeId, SendMsg),
    /// Tell the stop worker to tear the peer down.
    Stop(NodeId),
    /// Tell the upgrade worker to promote the pending connection.
    Upgrade(NodeId),
}

/// What a transition hands back for dispatch.
#[derive(Clone, Debug, PartialEq)]
pub enum Output {
    /// An event for the caller's event channel.
    Event(Event),
    /// A work order for the corresponding worker channel.
    Internal(Internal),
}

/// Inputs merged by the main loop: caller commands and worker reports.
#[derive(Clone, Debug, PartialEq)]
pub enum Input {
    /// The accept worker registered an inbound connection.
    Accepted(NodeId),
    /// The caller issued a command.
    Command(Command),
    /// The connect worker registered an outbound connection.
    Connected(NodeId),
    /// A worker closed a duplicate connection, with the close error if any.
    DuplicateConnRejected(NodeId, Option<Reason>),
    /// A running peer delivered an inbound message.
    Receive(NodeId, ReceiveMsg),
    /// The stop worker tore the peer down, with the stop error if any.
    Stopped(NodeId, Option<Reason>),
    /// The upgrade worker promoted the connection to a running peer.
    Upgraded(NodeId),
    /// The upgrade worker gave up on the connection.
    UpgradeFailed(NodeId, Reason),
}

/// Faults of the supervisor machinery itself.
#[derive(Clone, Copy, Debug, PartialEq, Eq, Structural)]
pub enum Error {
    /// A registry lock was poisoned by a panicking holder.
    StateLockPoisoned,
}

/// The protocol state as a mathematical value.
pub struct ProtocolModel {
    /// Ids whose connection is registered but not yet upgraded or failed.
    pub connected: Map<NodeId, Direction>,
    /// Ids of peers currently running.
    pub upgraded: Set<NodeId>,
    /// Ids of peers already torn down, terminal for this supervisor.
    pub stopped: Set<NodeId>,
}

impl ProtocolModel {
    /// The state before any input was processed.
    pub open spec fn init() -> ProtocolModel {
        ProtocolModel {
            connected: Map::empty(),
            upgraded: Set::empty(),
            stopped: Set::empty(),
        }
    }
}

/// The reason carried by a `Disconnected` event: the stop error if one was
/// reported, otherwise an ordinary teardown.
pub open spec fn stop_reason(report: Option<Reason>) -> Reason {
    match report {
        Option::Some(e) => e,
        Option::None => Reason::Done,
    }
}

/// The state after one transition.
pub open spec fn step_state(p: ProtocolModel, input: Input) -> ProtocolModel {
    match input {
        Input::Accepted(id) => ProtocolModel {
            connected: p.connected.insert(id, Direction::Incoming),
            ..p
        },
        Input::Command(_) => p,
        Input::Connected(id) => ProtocolModel {
            connected: p.connected.insert(id, Direction::Outgoing),
            ..p
        },
        Input::DuplicateConnRejected(_, _) => p,
        Input::Receive(_, _) => p,
        Input::Stopped(id, _) => ProtocolModel {
            upgraded: p.upgraded.remove(id),
            stopped: p.stopped.insert(id),
            ..p
        },
        Input::Upgraded(id) => ProtocolModel {
            connected: p.connected.remove(id),
            upgraded: p.upgraded.insert(id),
            ..p
        },
        Input::UpgradeFailed(id, _) => ProtocolModel { connected: p.connected.remove(id), ..p },
    }
}

/// The outputs of one transition on a command.
pub open spec fn command_outputs(p: ProtocolModel, c: Command) -> Seq<Output> {
    match c {
        Command::Accept => seq![Output::Internal(Internal::Accept)],
        Command::Connect(info) => seq![Output::Internal(Internal::Connect(info))],
        Command::Disconnect(id) => seq![Output::Internal(Internal::Stop(id))],
        Command::Msg(id, m) => if p.upgraded.contains(id) {
            seq![Output::Internal(Internal::SendMessage(id, m))]
        } else {
            seq![]
        },
    }
}

/// The outputs of one transition.
pub open spec fn step_outputs(p: ProtocolModel, input: Input) -> Seq<Output> {
    match input {
        Input::Accepted(id) => seq![
            Output::Event(Event::Connected(id, Direction::Incoming)),
            Output::Internal(Internal::Upgrade(id)),
        ],
        Input::Command(c) => command_outputs(p, c),
        Input::Connected(id) => seq![
            Output::Event(Event::Connected(id, Direction::Outgoing)),
            Output::Internal(Internal::Upgrade(id)),
        ],
        Input::DuplicateConnRejected(_, _) => seq![],
        Input::Receive(id, m) => seq![Output::Event(Event::Message(id, m))],
        Input::Stopped(id, report) => seq![
            Output::Event(Event::Disconnected(id, stop_reason(report))),
        ],
        Input::Upgraded(id) => seq![Output::Event(Event::Upgraded(id))],
        Input::UpgradeFailed(id, e) => seq![Output::Event(Event::UpgradeFailed(id, e))],
    }
}

/// The pure protocol state machine owned by the main loop.
pub struct Protocol {
    connected: HashMap<NodeId, Direction>,
    stopped: HashSet<NodeId>,
    upgraded: HashSet<NodeId>,
}

impl Protocol {
    /// The state as a mathematical value.
    pub closed spec fn model(&self) -> ProtocolModel {
        ProtocolModel {
            connected: self.connected@,
            upgraded: self.upgraded@,
            stopped: self.stopped@,
        }
    }

    /// A protocol that has seen nothing yet.
    pub fn new() -> (p: Protocol)
        ensures
            p.model() == ProtocolModel::init(),
    {
        Protocol {
            connected: HashMap::new(),
            stopped: HashSet::new(),
            upgraded: HashSet::new(),
        }
    }

    /// One transition: consume an input, update the state, hand back the
    /// outputs to dispatch. Pure: no work is performed here.
    pub fn transition(&mut self, input: Input) -> (outputs: Vec<Output>)
        ensures
            final(self).model() == step_state(old(self).model(), input),
            outputs@ == step_outputs(old(self).model(), input),
    {
        match input {
            Input::Accepted(id) => self.handle_accepted(id),
            Input::Command(command) => self.handle_command(command),
            Input::Connected(id) => self.handle_connected(id),
            Input::DuplicateConnRejected(_id, _err) => Vec::new(),
            Input::Receive(id, msg) => self.handle_receive(id, msg),
            Input::Stopped(id, report) => self.handle_stopped(id, report),
            Input::Upgraded(id) => self.handle_upgraded(id),
            Input::UpgradeFailed(id, err) => self.handle_upgrade_failed(id, err),
        }
    }

    pub fn handle_accepted(&mut self, id: NodeId) -> (outputs: Vec<Output>)
        ensures
            final(self).model() == step_state(old(self).model(), Input::Accepted(id)),
            outputs@ == step_outputs(old(self).model(), Input::Accepted(id)),
    {
        self.connected.insert(id, Direction::Incoming);

        let outputs = vec![
            Output::Event(Event::Connected(id, Direction::Incoming)),
            Output::Internal(Internal::Upgrade(id)),
        ];
        assert(outputs@ =~= step_outputs(old(self).model(), Input::Accepted(id)));
        outputs
    }

    pub fn handle_command(&mut self, command: Command) -> (outputs: Vec<Output>)
        ensures
            final(self).model() == old(self).model(),
            outputs@ == command_outputs(old(self).model(), command),
    {
        match command {
            Command::Accept => {
                let outputs = vec![Output::Internal(Internal::Accept)];
                assert(outputs@ =~= command_outputs(self.model(), Command::Accept));
                outputs
            },
            Command::Connect(info) => {
                let ghost c = Command::Connect(info);
                let outputs = vec![Output::Internal(Internal::Connect(info))];
                assert(outputs@ =~= command_outputs(self.model(), c));
                outputs
            },
            Command::Disconnect(id) => {
                let outputs = vec![Output::Internal(Internal::Stop(id))];
                assert(outputs@ =~= command_outputs(self.model(), Command::Disconnect(id)));
                outputs
            },
            Command::Msg(peer_id, msg) => {
                let ghost c = Command::Msg(peer_id, msg);
                if self.upgraded.contains(&peer_id) {
                    let outputs = vec![Output::Internal(Internal::SendMessage(peer_id, msg))];
                    assert(outputs@ =~= command_outputs(self.model(), c));
                    outputs
                } else {
                    let outputs = Vec::new();
                    assert(outputs@ =~= command_outputs(self.model(), c));
                    outputs
                }
            },
        }
    }

    pub fn handle_connected(&mut self, id: NodeId) -> (outputs: Vec<Output>)
        ensures
            final(self).model() == step_state(old(self).model(), Input::Connected(id)),
            outputs@ == step_outputs(old(self).model(), Input::Connected(id)),
    {
        self.connected.insert(id, Direction::Outgoing);

        let outputs = vec![
            Output::Event(Event::Connected(id, Direction::Outgoing)),
            Output::Internal(Internal::Upgrade(id)),
        ];
        assert(outputs@ =~= step_outputs(old(self).model(), Input::Connected(id)));
        outputs
    }

    pub fn handle_receive(&self, id: NodeId, msg: ReceiveMsg) -> (outputs: Vec<Output>)
        ensures
            outputs@ == step_outputs(self.model(), Input::Receive(id, msg)),
    {
        let ghost input = Input::Receive(id, msg);
        let outputs = vec![Output::Event(Event::Message(id, msg))];
        assert(outputs@ =~= step_outputs(self.model(), input));
        outputs
    }

    pub fn handle_stopped(&mut self, id: NodeId, report: Option<Reason>) -> (outputs: Vec<Output>)
        ensures
            final(self).model() == step_state(old(self).model(), Input::Stopped(id, report)),
            outputs@ == step_outputs(old(self).model(), Input::Stopped(id, report)),
    {
        self.upgraded.remove(&id);
        self.stopped.insert(id);

        let reason = match report {
            Some(e) => e,
            None => Reason::Done,
        };
        let outputs = vec![Output::Event(Event::Disconnected(id, reason))];
        assert(outputs@ =~= step_outputs(old(self).model(), Input::Stopped(id, report)));
        outputs
    }

    /// The id leaves the connected map as it enters the upgraded set: the
    /// map mirrors the connection registry, whose entry the upgrade worker
    /// consumed before reporting.
    pub fn handle_upgraded(&mut self, id: NodeId) -> (outputs: Vec<Output>)
        ensures
            final(self).model() == step_state(old(self).model(), Input::Upgraded(id)),
            outputs@ == step_outputs(old(self).model(), Input::Upgraded(id)),
    {
        self.connected.remove(&id);
        self.upgraded.insert(id);

        let outputs = vec![Output::Event(Event::Upgraded(id))];
        assert(outputs@ =~= step_outputs(old(self).model(), Input::Upgraded(id)));
        outputs
    }

    pub fn handle_upgrade_failed(&mut self, id: NodeId, err: Reason) -> (outputs: Vec<Output>)
        ensures
            final(self).model() == step_state(old(self).model(), Input::UpgradeFailed(id, err)),
            outputs@ == step_outputs(old(self).model(), Input::UpgradeFailed(id, err)),
    {
        self.connected.remove(&id);

        let outputs = vec![Output::Event(Event::UpgradeFailed(id, err))];
        assert(outputs@ =~= step_outputs(old(self).model(), Input::UpgradeFailed(id, err)));
        outputs
    }
}

} // verus!
