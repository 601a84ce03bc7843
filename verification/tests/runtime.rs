//! The reactor, the scheduler and whole tasks, driven end to end.

use std::collections::VecDeque;

use miniruntime::conn::ConnectionState;
use miniruntime::frame::response_bytes;
use miniruntime::handler::{ConnectionHandler, Future};
use miniruntime::listener::{listener_step, AcceptEvent, ListenerAction};
use miniruntime::reactor::Reactor;
use miniruntime::sched::{Scheduler, TaskSlot, Waker};
use miniruntime::sim::SimSocket;

fn one_byte_chunks(bytes: &[u8]) -> VecDeque<Vec<u8>> {
    let mut q: VecDeque<Vec<u8>> = VecDeque::new();
    for b in bytes {
        q.push_back(vec![*b]);
    }
    q
}

fn ready_socket() -> SimSocket {
    SimSocket {
        incoming: one_byte_chunks(b"GET / \r\n\r\n"),
        eof_when_drained: false,
        delivered: Vec::new(),
        accepted: Vec::new(),
        write_limit: 1,
        flush_ready: true,
    }
}

fn empty_socket() -> SimSocket {
    SimSocket {
        incoming: VecDeque::new(),
        eof_when_drained: false,
        delivered: Vec::new(),
        accepted: Vec::new(),
        write_limit: 1,
        flush_ready: true,
    }
}

#[test]
fn connection_completes_with_one_byte_reads_and_writes() {
    let mut reactor = Reactor::new();
    let mut h = ConnectionHandler::new(7, ready_socket());
    let r = h.poll(Waker { task: 0 }, &mut reactor);
    assert!(matches!(r, Some(())));
    assert!(matches!(h.state, ConnectionState::Done));
    assert_eq!(h.sock.accepted, response_bytes());
    assert_eq!(h.sock.delivered, b"GET / \r\n\r\n".to_vec());
    assert!(reactor.lookup(7).is_none());
}

#[test]
fn pending_connection_leaves_its_waker_registered() {
    let mut reactor = Reactor::new();
    let mut h = ConnectionHandler::new(7, empty_socket());
    let r = h.poll(Waker { task: 3 }, &mut reactor);
    assert!(r.is_none());
    assert!(matches!(h.state, ConnectionState::Reading { .. }));
    let w = reactor.lookup(7);
    assert!(matches!(w, Some(Waker { task: 3 })));
}

#[test]
fn suspended_connection_resumes_and_completes() {
    let mut reactor = Reactor::new();
    let mut h = ConnectionHandler::new(7, empty_socket());
    assert!(h.poll(Waker { task: 0 }, &mut reactor).is_none());
    for b in b"\r\n\r\n" {
        h.sock.incoming.push_back(vec![*b]);
    }
    let r = h.poll(Waker { task: 0 }, &mut reactor);
    assert!(matches!(r, Some(())));
    assert!(matches!(h.state, ConnectionState::Done));
    assert_eq!(h.sock.accepted, response_bytes());
    assert!(reactor.lookup(7).is_none());
}

#[test]
fn disconnect_mid_reading_completes_without_response() {
    let mut reactor = Reactor::new();
    let mut sock = ready_socket();
    sock.incoming.truncate(4);
    sock.eof_when_drained = true;
    let mut h = ConnectionHandler::new(9, sock);
    let r = h.poll(Waker { task: 0 }, &mut reactor);
    assert!(matches!(r, Some(())));
    assert!(matches!(h.state, ConnectionState::Failed));
    assert!(h.sock.accepted.is_empty());
    assert!(reactor.lookup(9).is_none());
}

#[test]
fn writing_task_with_blocked_peer_suspends_unchanged() {
    let mut reactor = Reactor::new();
    let waker = Waker { task: 0 };
    reactor.add(11, waker);
    let mut sock = empty_socket();
    sock.write_limit = 0;
    sock.accepted = response_bytes()[..3].to_vec();
    let mut h = ConnectionHandler {
        fd: 11,
        sock,
        state: ConnectionState::Writing { sent: 3 },
        response: response_bytes(),
    };
    let r = h.poll(waker, &mut reactor);
    assert!(r.is_none());
    assert!(matches!(h.state, ConnectionState::Writing { sent: 3 }));
    assert_eq!(h.sock.accepted, response_bytes()[..3].to_vec());
    assert!(matches!(reactor.lookup(11), Some(Waker { task: 0 })));
}

#[test]
fn writing_task_reaches_flushing_when_flush_is_not_ready() {
    let mut reactor = Reactor::new();
    let waker = Waker { task: 0 };
    reactor.add(12, waker);
    let mut sock = empty_socket();
    sock.flush_ready = false;
    let mut h = ConnectionHandler {
        fd: 12,
        sock,
        state: ConnectionState::Writing { sent: 0 },
        response: response_bytes(),
    };
    let r = h.poll(waker, &mut reactor);
    assert!(r.is_none());
    assert!(matches!(h.state, ConnectionState::Flushing));
    assert_eq!(h.sock.accepted, response_bytes());
    // the output drains; the next wake completes the task
    h.sock.flush_ready = true;
    let r = h.poll(waker, &mut reactor);
    assert!(matches!(r, Some(())));
    assert!(matches!(h.state, ConnectionState::Done));
    assert!(reactor.lookup(12).is_none());
}

#[test]
fn oversized_request_fails_through_poll() {
    let mut reactor = Reactor::new();
    let mut sock = empty_socket();
    sock.incoming.push_back(vec![65u8; 600]);
    sock.incoming.push_back(vec![66u8; 600]);
    let mut h = ConnectionHandler::new(13, sock);
    let r = h.poll(Waker { task: 0 }, &mut reactor);
    assert!(matches!(r, Some(())));
    assert!(matches!(h.state, ConnectionState::Failed));
    assert!(h.sock.accepted.is_empty());
    assert!(reactor.lookup(13).is_none());
}

#[test]
fn waking_twice_queues_a_task_at_most_once() {
    let mut sched = Scheduler::new();
    let id = sched.spawn(ConnectionHandler::new(7, empty_socket()));
    assert_eq!(id, 0);
    assert_eq!(sched.runnable.len(), 1);
    let w = Waker { task: id };
    w.wake(&mut sched);
    w.wake(&mut sched);
    assert_eq!(sched.runnable.len(), 1);
    assert_eq!(sched.runnable[0], id);
}

#[test]
fn spawn_order_is_queue_order() {
    let mut sched = Scheduler::new();
    let a = sched.spawn(ConnectionHandler::new(1, empty_socket()));
    let b = sched.spawn(ConnectionHandler::new(2, empty_socket()));
    let c = sched.spawn(ConnectionHandler::new(3, empty_socket()));
    assert_eq!((a, b, c), (0, 1, 2));
    assert_eq!(sched.runnable[0], 0);
    assert_eq!(sched.runnable[1], 1);
    assert_eq!(sched.runnable[2], 2);
}

#[test]
fn reactor_registration_lifecycle() {
    let mut reactor = Reactor::new();
    assert!(reactor.lookup(5).is_none());
    reactor.add(5, Waker { task: 2 });
    assert!(matches!(reactor.lookup(5), Some(Waker { task: 2 })));
    reactor.remove(5);
    assert!(reactor.lookup(5).is_none());
}

#[test]
fn readiness_for_unregistered_handle_is_dropped_silently() {
    let mut sched = Scheduler::new();
    let reactor = Reactor::new();
    reactor.wait(&vec![5, 6, 7], &mut sched);
    assert_eq!(sched.runnable.len(), 0);
}

#[test]
fn duplicate_readiness_notifications_coalesce() {
    let mut sched = Scheduler::new();
    let id = sched.spawn(ConnectionHandler::new(5, empty_socket()));
    let mut reactor = Reactor::new();
    reactor.add(5, Waker { task: id });
    reactor.wait(&vec![5, 5, 5], &mut sched);
    assert_eq!(sched.runnable.len(), 1);
}

#[test]
fn idle_scheduler_waits_once_per_batch_and_polls_nothing() {
    let mut sched = Scheduler::new();
    let mut reactor = Reactor::new();
    let waits = sched.run(&mut reactor, &vec![vec![]]);
    assert_eq!(waits, 1);
    assert_eq!(sched.tasks.len(), 0);
    assert_eq!(sched.runnable.len(), 0);
    let waits = sched.run(&mut reactor, &vec![vec![], vec![], vec![]]);
    assert_eq!(waits, 3);
}

#[test]
fn scheduler_drives_a_connection_to_completion() {
    let mut sched = Scheduler::new();
    let mut reactor = Reactor::new();
    let id = sched.spawn(ConnectionHandler::new(7, ready_socket()));
    let waits = sched.run(&mut reactor, &vec![]);
    assert_eq!(waits, 0);
    assert!(matches!(sched.tasks[id], TaskSlot::Vacant));
    assert!(reactor.lookup(7).is_none());
}

#[test]
fn readiness_resumes_a_suspended_task_exactly_once() {
    let mut sched = Scheduler::new();
    let mut reactor = Reactor::new();
    let id = sched.spawn(ConnectionHandler::new(7, empty_socket()));
    // first pass: the task suspends on its empty socket
    sched.run(&mut reactor, &vec![]);
    assert!(matches!(sched.tasks[id], TaskSlot::Occupied(_)));
    assert_eq!(sched.runnable.len(), 0);
    assert!(matches!(reactor.lookup(7), Some(Waker { task: 0 })));
    // the peer sends the request terminator; its handle turns ready
    match &mut sched.tasks[id] {
        TaskSlot::Occupied(h) => {
            for b in b"\r\n\r\n" {
                h.sock.incoming.push_back(vec![*b]);
            }
        },
        TaskSlot::Vacant => panic!("task vanished while suspended"),
    }
    let waits = sched.run(&mut reactor, &vec![vec![7]]);
    assert_eq!(waits, 1);
    assert!(matches!(sched.tasks[id], TaskSlot::Vacant));
    assert!(reactor.lookup(7).is_none());
}

#[test]
fn listener_decisions() {
    assert!(matches!(
        listener_step(AcceptEvent::Accepted(12)),
        ListenerAction::SpawnConnection(12)
    ));
    assert!(matches!(listener_step(AcceptEvent::WouldBlock), ListenerAction::Suspend));
    assert!(matches!(listener_step(AcceptEvent::Error), ListenerAction::Shutdown));
}
