//! Each transition of the protocol state machine, row by row.

use p2p_supervisor::message::{ReceiveMsg, SendMsg};
use p2p_supervisor::supervisor::{
    Command, Direction, Event, Input, Internal, Output, Protocol, Reason,
};
use p2p_supervisor::transport::ConnectInfo;

fn info(addr: &[u8]) -> ConnectInfo {
    ConnectInfo { addr: addr.to_vec() }
}

#[test]
fn accept_command_orders_accept() {
    let mut p = Protocol::new();
    let outs = p.transition(Input::Command(Command::Accept));
    assert_eq!(outs, vec![Output::Internal(Internal::Accept)]);
}

#[test]
fn connect_command_orders_dial() {
    let mut p = Protocol::new();
    let outs = p.transition(Input::Command(Command::Connect(info(b"remote-b"))));
    assert_eq!(outs, vec![Output::Internal(Internal::Connect(info(b"remote-b")))]);
}

#[test]
fn disconnect_command_orders_stop() {
    let mut p = Protocol::new();
    let outs = p.transition(Input::Command(Command::Disconnect(9)));
    assert_eq!(outs, vec![Output::Internal(Internal::Stop(9))]);
}

#[test]
fn msg_for_unknown_id_is_dropped() {
    let mut p = Protocol::new();
    let m = SendMsg { bytes: vec![1, 2, 3] };
    let outs = p.transition(Input::Command(Command::Msg(9, m)));
    assert_eq!(outs, vec![]);
}

#[test]
fn msg_for_upgraded_id_orders_send() {
    let mut p = Protocol::new();
    p.transition(Input::Accepted(9));
    p.transition(Input::Upgraded(9));
    let m = SendMsg { bytes: vec![1, 2, 3] };
    let outs = p.transition(Input::Command(Command::Msg(9, m.clone())));
    assert_eq!(outs, vec![Output::Internal(Internal::SendMessage(9, m))]);
}

#[test]
fn msg_after_stop_is_dropped() {
    let mut p = Protocol::new();
    p.transition(Input::Accepted(9));
    p.transition(Input::Upgraded(9));
    p.transition(Input::Stopped(9, None));
    let m = SendMsg { bytes: vec![4] };
    let outs = p.transition(Input::Command(Command::Msg(9, m)));
    assert_eq!(outs, vec![]);
}

#[test]
fn accepted_emits_connected_and_orders_upgrade() {
    let mut p = Protocol::new();
    let outs = p.transition(Input::Accepted(3));
    assert_eq!(
        outs,
        vec![
            Output::Event(Event::Connected(3, Direction::Incoming)),
            Output::Internal(Internal::Upgrade(3)),
        ]
    );
}

#[test]
fn connected_emits_connected_and_orders_upgrade() {
    let mut p = Protocol::new();
    let outs = p.transition(Input::Connected(4));
    assert_eq!(
        outs,
        vec![
            Output::Event(Event::Connected(4, Direction::Outgoing)),
            Output::Internal(Internal::Upgrade(4)),
        ]
    );
}

#[test]
fn upgraded_emits_upgraded() {
    let mut p = Protocol::new();
    p.transition(Input::Accepted(5));
    let outs = p.transition(Input::Upgraded(5));
    assert_eq!(outs, vec![Output::Event(Event::Upgraded(5))]);
}

#[test]
fn upgrade_failed_emits_upgrade_failed() {
    let mut p = Protocol::new();
    p.transition(Input::Accepted(5));
    let outs = p.transition(Input::UpgradeFailed(5, Reason::PeerBuildFailed));
    assert_eq!(outs, vec![Output::Event(Event::UpgradeFailed(5, Reason::PeerBuildFailed))]);
}

#[test]
fn stopped_without_report_emits_plain_disconnect() {
    let mut p = Protocol::new();
    p.transition(Input::Accepted(5));
    p.transition(Input::Upgraded(5));
    let outs = p.transition(Input::Stopped(5, None));
    assert_eq!(outs, vec![Output::Event(Event::Disconnected(5, Reason::Done))]);
}

#[test]
fn stopped_with_report_carries_it() {
    let mut p = Protocol::new();
    p.transition(Input::Accepted(5));
    p.transition(Input::Upgraded(5));
    let outs = p.transition(Input::Stopped(5, Some(Reason::StopFailed)));
    assert_eq!(outs, vec![Output::Event(Event::Disconnected(5, Reason::StopFailed))]);
}

#[test]
fn duplicate_rejection_is_silent() {
    let mut p = Protocol::new();
    p.transition(Input::Accepted(5));
    let outs = p.transition(Input::DuplicateConnRejected(5, Some(Reason::CloseFailed)));
    assert_eq!(outs, vec![]);
}

#[test]
fn receive_emits_message() {
    let mut p = Protocol::new();
    p.transition(Input::Accepted(5));
    p.transition(Input::Upgraded(5));
    let m = ReceiveMsg { bytes: vec![7, 7] };
    let outs = p.transition(Input::Receive(5, m.clone()));
    assert_eq!(outs, vec![Output::Event(Event::Message(5, m))]);
}

#[test]
fn no_accept_order_without_accept_command() {
    // The accept worker is unblocked only by an Accept command: a run over
    // every other kind of command never dispatches the accept order.
    let mut p = Protocol::new();
    let mut outs = Vec::new();
    outs.extend(p.transition(Input::Command(Command::Connect(info(b"remote")))));
    outs.extend(p.transition(Input::Connected(11)));
    outs.extend(p.transition(Input::Upgraded(11)));
    outs.extend(p.transition(Input::Command(Command::Msg(11, SendMsg { bytes: vec![1] }))));
    outs.extend(p.transition(Input::Command(Command::Disconnect(11))));
    outs.extend(p.transition(Input::Stopped(11, None)));
    assert!(!outs.iter().any(|o| *o == Output::Internal(Internal::Accept)));
}

#[test]
fn handlers_match_their_transitions() {
    // The per-input handlers are the same steps transition dispatches.
    let mut p = Protocol::new();
    let direct = p.handle_accepted(21);
    let mut q = Protocol::new();
    let routed = q.transition(Input::Accepted(21));
    assert_eq!(direct, routed);
    let direct = p.handle_upgraded(21);
    let routed = q.transition(Input::Upgraded(21));
    assert_eq!(direct, routed);
    let direct = p.handle_stopped(21, Some(Reason::StopFailed));
    let routed = q.transition(Input::Stopped(21, Some(Reason::StopFailed)));
    assert_eq!(direct, routed);
}
