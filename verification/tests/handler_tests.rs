use relay_server::acceptor::{AcceptError, Acceptor};
use relay_server::coordinator::{drain, relay_one, RelayStep};
use relay_server::handler::{classify_close, CloseClass, ConnState, Connection, Ending, Reply};
use relay_server::message::{Envelope, Message};
use relay_server::queue::{QueueError, RelayQueue};
use relay_server::registry::{Registry, RegistryError};

fn text(s: &str) -> Message {
    Message::Text(s.to_string())
}

fn open(id: u64, registry: &mut Registry) -> Connection {
    Connection::on_open(id, format!("peer-{}", id), registry).unwrap()
}

#[test]
fn two_connections_echo_and_one_normal_close() {
    let mut registry = Registry::new();
    let mut acceptor = Acceptor::new();
    let mut inbound = RelayQueue::new(16);
    let mut a = acceptor.accept(Some("10.0.0.1".to_string()), &mut registry).unwrap();
    let b = acceptor.accept(Some("10.0.0.2".to_string()), &mut registry).unwrap();
    assert_eq!(registry.snapshot(), 2);
    assert_ne!(a.id(), b.id());

    assert_eq!(a.on_message(text("hello"), &mut inbound), Reply::Echo(text("hello")));
    assert_eq!(
        b.on_message(Message::Binary(vec![1, 2, 3]), &mut inbound),
        Reply::Echo(Message::Binary(vec![1, 2, 3]))
    );

    assert_eq!(a.on_close(1000, &mut registry), Ok(CloseClass::Normal));
    assert_eq!(registry.snapshot(), 1);
    assert_eq!(a.state(), ConnState::Closed);
    assert_eq!(b.state(), ConnState::Open);

    assert_eq!(inbound.try_pop(), Some(Envelope { origin: a.id(), message: text("hello") }));
    assert_eq!(
        inbound.try_pop(),
        Some(Envelope { origin: b.id(), message: Message::Binary(vec![1, 2, 3]) })
    );
    assert_eq!(inbound.try_pop(), None);
}

#[test]
fn hundred_messages_echo_in_order_and_drain() {
    let mut registry = Registry::new();
    let conn = open(7, &mut registry);
    let mut inbound = RelayQueue::new(128);
    let mut outbound = RelayQueue::new(128);
    let mut echoed = Vec::new();
    for i in 0..100 {
        match conn.on_message(text(&format!("m{}", i)), &mut inbound) {
            Reply::Echo(m) => echoed.push(m),
            other => panic!("message {} got {:?}", i, other),
        }
    }
    assert_eq!(echoed.len(), 100);
    for i in 0..100 {
        assert_eq!(echoed[i], text(&format!("m{}", i)));
    }
    let done = drain(&mut inbound, &mut outbound);
    assert_eq!(done.forwarded, 100);
    assert_eq!(done.stopped, RelayStep::Idle);
    assert!(inbound.is_empty());
    assert_eq!(outbound.len(), 100);
    for i in 0..100 {
        assert_eq!(
            outbound.try_pop(),
            Some(Envelope { origin: 7, message: text(&format!("m{}", i)) })
        );
    }
}

#[test]
fn burst_echoes_exactly_the_payloads() {
    let mut registry = Registry::new();
    let conn = open(3, &mut registry);
    let mut inbound = RelayQueue::new(10);
    let msgs = vec![
        text("a"),
        Message::Ping,
        Message::Binary(vec![9, 8]),
        Message::Pong,
        Message::Close(1000, "bye".to_string()),
        text("b"),
    ];
    let burst = conn.on_burst(&msgs, &mut inbound);
    assert_eq!(burst.handled, 6);
    assert_eq!(burst.echoes, vec![text("a"), Message::Binary(vec![9, 8]), text("b")]);
    assert_eq!(inbound.len(), 3);
    assert_eq!(inbound.try_pop(), Some(Envelope { origin: 3, message: text("a") }));
    assert_eq!(
        inbound.try_pop(),
        Some(Envelope { origin: 3, message: Message::Binary(vec![9, 8]) })
    );
    assert_eq!(inbound.try_pop(), Some(Envelope { origin: 3, message: text("b") }));
}

#[test]
fn burst_stops_where_the_queue_is_full() {
    let mut registry = Registry::new();
    let conn = open(1, &mut registry);
    let mut inbound = RelayQueue::new(2);
    let msgs = vec![text("a"), Message::Ping, text("b"), Message::Pong, text("c"), text("d")];
    let burst = conn.on_burst(&msgs, &mut inbound);
    assert_eq!(burst.handled, 4);
    assert_eq!(burst.echoes, vec![text("a"), text("b")]);
    assert_eq!(inbound.len(), 2);
}

#[test]
fn burst_on_a_closed_connection_does_nothing() {
    let mut registry = Registry::new();
    let mut conn = open(1, &mut registry);
    conn.on_error(&mut registry).unwrap();
    let mut inbound = RelayQueue::new(4);
    let burst = conn.on_burst(&vec![text("a"), text("b")], &mut inbound);
    assert_eq!(burst.handled, 2);
    assert!(burst.echoes.is_empty());
    assert!(inbound.is_empty());
}

#[test]
fn control_frames_are_neither_echoed_nor_queued() {
    let mut registry = Registry::new();
    let conn = open(0, &mut registry);
    let mut inbound = RelayQueue::new(4);
    assert_eq!(conn.on_message(Message::Ping, &mut inbound), Reply::Ignored);
    assert_eq!(conn.on_message(Message::Pong, &mut inbound), Reply::Ignored);
    assert_eq!(
        conn.on_message(Message::Close(1001, "leaving".to_string()), &mut inbound),
        Reply::Ignored
    );
    assert!(inbound.is_empty());
    assert_eq!(conn.state(), ConnState::Open);
    assert_eq!(registry.snapshot(), 1);
}

#[test]
fn full_queue_hands_the_message_back() {
    let mut registry = Registry::new();
    let conn = open(0, &mut registry);
    let mut inbound = RelayQueue::new(1);
    assert_eq!(conn.on_message(text("one"), &mut inbound), Reply::Echo(text("one")));
    assert_eq!(conn.on_message(text("two"), &mut inbound), Reply::Busy(text("two")));
    assert_eq!(inbound.len(), 1);
    assert_eq!(inbound.try_pop(), Some(Envelope { origin: 0, message: text("one") }));
    assert_eq!(conn.on_message(text("two"), &mut inbound), Reply::Echo(text("two")));
}

#[test]
fn closed_queue_hands_the_message_back() {
    let mut registry = Registry::new();
    let conn = open(0, &mut registry);
    let mut inbound = RelayQueue::new(4);
    inbound.close();
    assert_eq!(conn.on_message(text("x"), &mut inbound), Reply::Unavailable(text("x")));
    assert!(inbound.is_empty());
}

#[test]
fn zero_capacity_queue_is_always_busy() {
    let mut registry = Registry::new();
    let conn = open(0, &mut registry);
    let mut inbound = RelayQueue::new(0);
    assert_eq!(conn.on_message(text("x"), &mut inbound), Reply::Busy(text("x")));
}

#[test]
fn close_codes_are_classified() {
    assert_eq!(classify_close(1000), CloseClass::Normal);
    assert_eq!(classify_close(1001), CloseClass::GoingAway);
    assert_eq!(classify_close(1006), CloseClass::AbnormalNoStatus);
    assert_eq!(classify_close(1002), CloseClass::Other);
    assert_eq!(classify_close(1011), CloseClass::Other);
    assert_eq!(classify_close(0), CloseClass::Other);
    assert_eq!(classify_close(4000), CloseClass::Other);
}

#[test]
fn close_then_error_releases_once() {
    let mut registry = Registry::new();
    let mut a = open(0, &mut registry);
    let _b = open(1, &mut registry);
    assert_eq!(a.on_close(1006, &mut registry), Ok(CloseClass::AbnormalNoStatus));
    assert_eq!(a.on_error(&mut registry), Ok(()));
    assert_eq!(a.on_shutdown(&mut registry), Ok(()));
    assert_eq!(a.on_close(1000, &mut registry), Ok(CloseClass::Normal));
    assert_eq!(registry.snapshot(), 1);
    assert_eq!(a.state(), ConnState::Closed);
}

#[test]
fn error_then_close_releases_once() {
    let mut registry = Registry::new();
    let mut a = open(0, &mut registry);
    let _b = open(1, &mut registry);
    assert_eq!(a.on_error(&mut registry), Ok(()));
    assert_eq!(a.state(), ConnState::Errored);
    assert_eq!(a.on_close(4000, &mut registry), Ok(CloseClass::Other));
    assert_eq!(a.state(), ConnState::Errored);
    assert_eq!(registry.snapshot(), 1);
}

#[test]
fn shutdown_leaves_no_count_behind() {
    let mut registry = Registry::new();
    let mut conns = vec![open(0, &mut registry), open(1, &mut registry), open(2, &mut registry)];
    conns[1].begin_close();
    for c in conns.iter_mut() {
        assert_eq!(c.on_shutdown(&mut registry), Ok(()));
        assert_eq!(c.state(), ConnState::Closed);
        assert!(!c.is_live());
    }
    assert_eq!(registry.snapshot(), 0);
}

#[test]
fn release_on_an_empty_registry_is_reported() {
    let mut registry = Registry::new();
    let mut a = open(0, &mut registry);
    let mut other = Registry::new();
    assert_eq!(a.on_close(1000, &mut other), Err(RegistryError::BelowZero));
    assert_eq!(other.snapshot(), 0);
    assert_eq!(a.state(), ConnState::Closed);
    assert_eq!(registry.snapshot(), 1);
    let mut b = open(1, &mut registry);
    assert_eq!(b.finish(Ending::Fault, &mut other), Err(RegistryError::BelowZero));
    assert_eq!(b.state(), ConnState::Errored);
}

#[test]
fn closing_connection_ignores_messages_but_keeps_its_count() {
    let mut registry = Registry::new();
    let mut a = open(5, &mut registry);
    let mut inbound = RelayQueue::new(4);
    a.begin_close();
    assert_eq!(a.state(), ConnState::Closing);
    assert!(a.is_live());
    assert_eq!(registry.snapshot(), 1);
    assert_eq!(a.on_message(text("late"), &mut inbound), Reply::Ignored);
    assert!(inbound.is_empty());
    assert_eq!(a.on_close(1001, &mut registry), Ok(CloseClass::GoingAway));
    assert_eq!(registry.snapshot(), 0);
    a.begin_close();
    assert_eq!(a.state(), ConnState::Closed);
}

#[test]
fn open_records_id_and_peer() {
    let mut registry = Registry::new();
    let c = Connection::on_open(42, "192.168.1.9".to_string(), &mut registry).unwrap();
    assert_eq!(c.id(), 42);
    assert_eq!(c.peer(), "192.168.1.9");
    assert_eq!(c.state(), ConnState::Open);
    assert_eq!(registry.snapshot(), 1);
}

#[test]
fn open_on_a_saturated_registry_fails() {
    let mut registry = Registry::starting_at(u64::MAX);
    let r = Connection::on_open(1, "p".to_string(), &mut registry);
    assert_eq!(r.err(), Some(RegistryError::Saturated));
    assert_eq!(registry.snapshot(), u64::MAX);
}

#[test]
fn poll_outbound_claims_each_envelope_once() {
    let mut registry = Registry::new();
    let a = open(0, &mut registry);
    let b = open(1, &mut registry);
    let mut inbound = RelayQueue::new(4);
    let mut outbound = RelayQueue::new(4);
    a.on_message(text("x"), &mut inbound);
    assert_eq!(relay_one(&mut inbound, &mut outbound), RelayStep::Forwarded);
    assert_eq!(b.poll_outbound(&mut outbound), Some(Envelope { origin: 0, message: text("x") }));
    assert_eq!(a.poll_outbound(&mut outbound), None);
}

#[test]
fn ended_connection_claims_nothing() {
    let mut registry = Registry::new();
    let mut a = open(0, &mut registry);
    let mut outbound = RelayQueue::new(4);
    outbound.try_push(Envelope { origin: 9, message: text("x") }).unwrap();
    a.on_error(&mut registry).unwrap();
    assert_eq!(a.poll_outbound(&mut outbound), None);
    assert_eq!(outbound.len(), 1);
}

#[test]
fn failed_handshake_touches_nothing() {
    let mut registry = Registry::new();
    let mut acceptor = Acceptor::new();
    assert_eq!(acceptor.accept(None, &mut registry).err(), Some(AcceptError::Handshake));
    assert_eq!(registry.snapshot(), 0);
    assert_eq!(acceptor.next_id(), 0);
    let c = acceptor.accept(Some("p".to_string()), &mut registry).unwrap();
    assert_eq!(c.id(), 0);
    assert_eq!(acceptor.next_id(), 1);
    let d = acceptor.accept(Some("q".to_string()), &mut registry).unwrap();
    assert_eq!(d.id(), 1);
    assert_eq!(d.peer(), "q");
    assert_eq!(registry.snapshot(), 2);
}

#[test]
fn acceptor_reports_exhausted_ids_and_saturated_registry() {
    let mut registry = Registry::new();
    let mut acceptor = Acceptor::starting_at(u64::MAX);
    assert_eq!(
        acceptor.accept(Some("p".to_string()), &mut registry).err(),
        Some(AcceptError::Exhausted)
    );
    assert_eq!(registry.snapshot(), 0);
    let mut full = Registry::starting_at(u64::MAX);
    let mut fresh = Acceptor::new();
    assert_eq!(
        fresh.accept(Some("p".to_string()), &mut full).err(),
        Some(AcceptError::Registry(RegistryError::Saturated))
    );
    assert_eq!(fresh.next_id(), 0);
    assert_eq!(full.snapshot(), u64::MAX);
}

#[test]
fn queue_error_variants() {
    let mut q = RelayQueue::new(1);
    q.try_push(Envelope { origin: 0, message: text("a") }).unwrap();
    let full = q.try_push(Envelope { origin: 0, message: text("b") }).unwrap_err();
    assert_eq!(full.reason, QueueError::Full);
    assert_eq!(full.item, Envelope { origin: 0, message: text("b") });
    q.close();
    let closed = q.try_push(Envelope { origin: 0, message: text("c") }).unwrap_err();
    assert_eq!(closed.reason, QueueError::Closed);
    assert_eq!(closed.item.message, text("c"));
    assert_eq!(q.len(), 1);
}
