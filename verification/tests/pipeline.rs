use tcp_events::acceptor::{AcceptOutcome, Flow, TcpConnectionListenerSystem};
use tcp_events::address::Address;
use tcp_events::bundle::TcpSystemBundle;
use tcp_events::channel::{new_channel, Subscription};
use tcp_events::event::NetworkEvent;
use tcp_events::handler::{Reaction, TcpNetworkEventHandlerSystem};
use tcp_events::ping::Ping;
use tcp_events::pong::{Pong, PongSystemBundle};
use tcp_events::protocol::{greeting, is_ping, ping, pong};
use tcp_events::reader::{Polled, ReadOutcome, TcpNetworkListenerSystem, READ_BUFFER_SIZE};
use tcp_events::registry::{NetworkError, NetworkResource, Outbound};

fn peer(n: u32) -> Address {
    Address::V4 { ip: 0x0a00_0000 + n, port: 4000 }
}

fn buffer(data: &[u8]) -> [u8; READ_BUFFER_SIZE] {
    let mut buf = [0u8; READ_BUFFER_SIZE];
    buf[..data.len()].copy_from_slice(data);
    buf
}

#[test]
fn protocol_bytes_are_the_ascii_texts() {
    assert_eq!(ping(), b"ping".to_vec());
    assert_eq!(pong(), b"pong".to_vec());
    assert_eq!(greeting(), b"Thanks for joining the Server".to_vec());
    assert_eq!(READ_BUFFER_SIZE, 128);
}

#[test]
fn is_ping_takes_the_exact_payload_only() {
    assert!(is_ping(b"ping"));
    assert!(!is_ping(b"pin"));
    assert!(!is_ping(b"ping "));
    assert!(!is_ping(b"pong"));
    assert!(!is_ping(b"Ping"));
    assert!(!is_ping(b"pinG"));
    assert!(!is_ping(b""));
}

#[test]
fn acceptor_does_nothing_without_a_listener() {
    let acceptor = TcpConnectionListenerSystem;
    let without: NetworkResource<(), u32> = NetworkResource::default();
    let with: NetworkResource<(), u32> = NetworkResource::new(());
    assert_eq!(acceptor.start(&without), Flow::Done);
    assert_eq!(acceptor.start(&with), Flow::Again);
}

#[test]
fn accept_registers_and_announces() {
    let mut channel = new_channel();
    let mut sub = Subscription::new(&mut channel);
    let mut res: NetworkResource<(), u32> = NetworkResource::new(());
    let mut acceptor = TcpConnectionListenerSystem;
    let flow = acceptor.on_accept(&mut res, &mut channel, AcceptOutcome::Accepted(peer(1), 11));
    assert_eq!(flow, Flow::Again);
    assert_eq!(res.addresses(), vec![peer(1)]);
    assert_eq!(res.connection(&peer(1)), Some(&11));
    assert_eq!(sub.poll(&channel), vec![NetworkEvent::Connect(peer(1))]);
}

#[test]
fn accept_that_would_block_ends_the_loop() {
    let mut channel = new_channel();
    let mut sub = Subscription::new(&mut channel);
    let mut res: NetworkResource<(), u32> = NetworkResource::new(());
    let mut acceptor = TcpConnectionListenerSystem;
    assert_eq!(acceptor.on_accept(&mut res, &mut channel, AcceptOutcome::WouldBlock), Flow::Done);
    assert_eq!(res.len(), 0);
    assert!(sub.poll(&channel).is_empty());
}

#[test]
fn failed_accept_does_not_stop_the_draining() {
    let mut channel = new_channel();
    let mut sub = Subscription::new(&mut channel);
    let mut res: NetworkResource<(), u32> = NetworkResource::new(());
    let mut acceptor = TcpConnectionListenerSystem;
    assert_eq!(acceptor.on_accept(&mut res, &mut channel, AcceptOutcome::Failed), Flow::Again);
    assert_eq!(acceptor.on_accept(&mut res, &mut channel, AcceptOutcome::Accepted(peer(2), 22)), Flow::Again);
    assert_eq!(acceptor.on_accept(&mut res, &mut channel, AcceptOutcome::WouldBlock), Flow::Done);
    assert_eq!(res.addresses(), vec![peer(2)]);
    assert_eq!(sub.poll(&channel), vec![NetworkEvent::Connect(peer(2))]);
}

#[test]
fn accept_from_a_known_address_replaces_and_announces_again() {
    let mut channel = new_channel();
    let mut sub = Subscription::new(&mut channel);
    let mut res: NetworkResource<(), u32> = NetworkResource::new(());
    let mut acceptor = TcpConnectionListenerSystem;
    acceptor.on_accept(&mut res, &mut channel, AcceptOutcome::Accepted(peer(1), 11));
    acceptor.on_accept(&mut res, &mut channel, AcceptOutcome::Accepted(peer(1), 12));
    assert_eq!(res.len(), 1);
    assert_eq!(res.connection(&peer(1)), Some(&12));
    assert_eq!(
        sub.poll(&channel),
        vec![NetworkEvent::Connect(peer(1)), NetworkEvent::Connect(peer(1))]
    );
}

#[test]
fn reader_targets_every_registered_connection() {
    let mut res: NetworkResource<(), u32> = NetworkResource::new(());
    let reader = TcpNetworkListenerSystem;
    assert!(reader.targets(&res).is_empty());
    res.insert(peer(2), 22);
    res.insert(peer(1), 11);
    assert_eq!(reader.targets(&res), vec![peer(2), peer(1)]);
}

#[test]
fn read_of_some_bytes_is_a_message_with_those_bytes() {
    let buf = buffer(b"pingXYZ");
    let event = TcpNetworkListenerSystem::event_for(peer(1), ReadOutcome::Read(4), &buf);
    assert_eq!(event, Some(NetworkEvent::Message(peer(1), b"ping".to_vec())));
}

#[test]
fn read_of_one_byte_and_of_a_full_buffer() {
    let buf = [7u8; READ_BUFFER_SIZE];
    let one = TcpNetworkListenerSystem::event_for(peer(1), ReadOutcome::Read(1), &buf);
    assert_eq!(one, Some(NetworkEvent::Message(peer(1), vec![7u8])));
    let full = TcpNetworkListenerSystem::event_for(peer(1), ReadOutcome::Read(128), &buf);
    assert_eq!(full, Some(NetworkEvent::Message(peer(1), vec![7u8; 128])));
}

#[test]
fn read_of_no_bytes_is_no_event() {
    let buf = buffer(b"stale");
    assert_eq!(TcpNetworkListenerSystem::event_for(peer(1), ReadOutcome::Read(0), &buf), None);
}

#[test]
fn read_that_would_block_or_fails_is_no_event() {
    let buf = buffer(b"stale");
    assert_eq!(TcpNetworkListenerSystem::event_for(peer(1), ReadOutcome::WouldBlock, &buf), None);
    assert_eq!(TcpNetworkListenerSystem::event_for(peer(1), ReadOutcome::Failed, &buf), None);
}

#[test]
fn reset_is_a_disconnect() {
    let buf = buffer(b"");
    assert_eq!(
        TcpNetworkListenerSystem::event_for(peer(3), ReadOutcome::Reset, &buf),
        Some(NetworkEvent::Disconnect(peer(3)))
    );
}

#[test]
fn on_read_appends_to_the_log() {
    let mut channel = new_channel();
    let mut sub = Subscription::new(&mut channel);
    let mut reader = TcpNetworkListenerSystem;
    reader.on_read(&mut channel, peer(1), ReadOutcome::Read(2), &buffer(b"hi!"));
    reader.on_read(&mut channel, peer(2), ReadOutcome::WouldBlock, &buffer(b""));
    reader.on_read(&mut channel, peer(3), ReadOutcome::Reset, &buffer(b""));
    assert_eq!(
        sub.poll(&channel),
        vec![NetworkEvent::Message(peer(1), b"hi".to_vec()), NetworkEvent::Disconnect(peer(3))]
    );
}

#[test]
fn reader_pass_keeps_the_order_of_the_reads() {
    let mut channel = new_channel();
    let mut sub = Subscription::new(&mut channel);
    let mut reader = TcpNetworkListenerSystem;
    let reads = vec![
        Polled { addr: peer(1), outcome: ReadOutcome::Reset, buf: buffer(b"") },
        Polled { addr: peer(2), outcome: ReadOutcome::Read(0), buf: buffer(b"") },
        Polled { addr: peer(3), outcome: ReadOutcome::Read(3), buf: buffer(b"abcdef") },
        Polled { addr: peer(4), outcome: ReadOutcome::Failed, buf: buffer(b"") },
    ];
    reader.run(&mut channel, &reads);
    assert_eq!(
        sub.poll(&channel),
        vec![NetworkEvent::Disconnect(peer(1)), NetworkEvent::Message(peer(3), b"abc".to_vec())]
    );
}

#[test]
fn reader_leaves_a_reset_connection_registered() {
    let mut channel = new_channel();
    let mut res: NetworkResource<(), u32> = NetworkResource::new(());
    res.insert(peer(1), 11);
    let mut reader = TcpNetworkListenerSystem;
    reader.on_read(&mut channel, peer(1), ReadOutcome::Reset, &buffer(b""));
    assert_eq!(res.connection(&peer(1)), Some(&11));
}

#[test]
fn subscription_sees_only_what_is_written_after_it() {
    let mut channel = new_channel();
    let mut reader = TcpNetworkListenerSystem;
    let mut early = Subscription::new(&mut channel);
    reader.on_read(&mut channel, peer(1), ReadOutcome::Reset, &buffer(b""));
    let mut late = Subscription::new(&mut channel);
    reader.on_read(&mut channel, peer(2), ReadOutcome::Reset, &buffer(b""));
    assert_eq!(late.poll(&channel), vec![NetworkEvent::Disconnect(peer(2))]);
    assert_eq!(
        early.poll(&channel),
        vec![NetworkEvent::Disconnect(peer(1)), NetworkEvent::Disconnect(peer(2))]
    );
    assert!(early.poll(&channel).is_empty());
    assert!(late.poll(&channel).is_empty());
}

#[test]
fn unread_events_persist_over_ticks() {
    let mut channel = new_channel();
    let mut handler = TcpNetworkEventHandlerSystem::new(&mut channel);
    let mut reader = TcpNetworkListenerSystem;
    reader.on_read(&mut channel, peer(1), ReadOutcome::Read(1), &buffer(b"a"));
    reader.on_read(&mut channel, peer(1), ReadOutcome::Read(1), &buffer(b"b"));
    assert_eq!(
        handler.poll(&channel),
        vec![NetworkEvent::Message(peer(1), b"a".to_vec()), NetworkEvent::Message(peer(1), b"b".to_vec())]
    );
    reader.on_read(&mut channel, peer(1), ReadOutcome::Read(1), &buffer(b"c"));
    assert_eq!(handler.poll(&channel), vec![NetworkEvent::Message(peer(1), b"c".to_vec())]);
}

#[test]
fn many_events_in_one_tick_all_arrive_in_order() {
    let mut channel = new_channel();
    let mut handler = TcpNetworkEventHandlerSystem::new(&mut channel);
    let mut reader = TcpNetworkListenerSystem;
    let mut expected = Vec::new();
    for n in 0..300u32 {
        reader.on_read(&mut channel, peer(n), ReadOutcome::Reset, &buffer(b""));
        expected.push(NetworkEvent::Disconnect(peer(n)));
    }
    assert_eq!(handler.poll(&channel), expected);
}

#[test]
fn connect_is_answered_by_one_greeting() {
    let mut channel = new_channel();
    let handler = TcpNetworkEventHandlerSystem::new(&mut channel);
    let mut res: NetworkResource<(), u32> = NetworkResource::new(());
    res.insert(peer(1), 11);
    let reaction = handler.on_event(&mut res, &NetworkEvent::Connect(peer(1)));
    assert_eq!(
        reaction,
        Reaction::Send(Outbound { dest: peer(1), payload: b"Thanks for joining the Server".to_vec() })
    );
    assert_eq!(res.len(), 1);
}

#[test]
fn greeting_to_a_vanished_peer_fails_without_harm() {
    let mut channel = new_channel();
    let handler = TcpNetworkEventHandlerSystem::new(&mut channel);
    let mut res: NetworkResource<(), u32> = NetworkResource::new(());
    let reaction = handler.on_event(&mut res, &NetworkEvent::Connect(peer(1)));
    match reaction {
        Reaction::Send(out) => {
            assert_eq!(res.send(&out.dest, &out.payload), Err(NetworkError::NotConnected));
        }
        other => panic!("no greeting: {:?}", other),
    }
}

#[test]
fn handler_takes_note_of_a_message() {
    let mut channel = new_channel();
    let handler = TcpNetworkEventHandlerSystem::new(&mut channel);
    let mut res: NetworkResource<(), u32> = NetworkResource::new(());
    res.insert(peer(1), 11);
    let reaction = handler.on_event(&mut res, &NetworkEvent::Message(peer(1), b"ping".to_vec()));
    assert_eq!(reaction, Reaction::Received(peer(1)));
    assert_eq!(res.len(), 1);
}

#[test]
fn disconnect_removes_the_connection() {
    let mut channel = new_channel();
    let handler = TcpNetworkEventHandlerSystem::new(&mut channel);
    let mut res: NetworkResource<(), u32> = NetworkResource::new(());
    res.insert(peer(1), 11);
    res.insert(peer(2), 22);
    let reaction = handler.on_event(&mut res, &NetworkEvent::Disconnect(peer(1)));
    assert_eq!(reaction, Reaction::Disconnected(peer(1)));
    assert_eq!(res.addresses(), vec![peer(2)]);
}

#[test]
fn second_disconnect_is_a_no_op() {
    let mut channel = new_channel();
    let handler = TcpNetworkEventHandlerSystem::new(&mut channel);
    let mut res: NetworkResource<(), u32> = NetworkResource::new(());
    res.insert(peer(1), 11);
    res.insert(peer(2), 22);
    assert_eq!(handler.on_event(&mut res, &NetworkEvent::Disconnect(peer(1))), Reaction::Disconnected(peer(1)));
    assert_eq!(handler.on_event(&mut res, &NetworkEvent::Disconnect(peer(1))), Reaction::AlreadyGone(peer(1)));
    assert_eq!(res.addresses(), vec![peer(2)]);
}

#[test]
fn ping_and_only_ping_is_answered_with_pong() {
    let mut channel = new_channel();
    let responder = Pong::new(&mut channel);
    assert_eq!(
        responder.on_event(&NetworkEvent::Message(peer(1), b"ping".to_vec())),
        Some(Outbound { dest: peer(1), payload: b"pong".to_vec() })
    );
    assert_eq!(responder.on_event(&NetworkEvent::Message(peer(1), b"ping\n".to_vec())), None);
    assert_eq!(responder.on_event(&NetworkEvent::Message(peer(1), b"pingping".to_vec())), None);
    assert_eq!(responder.on_event(&NetworkEvent::Message(peer(1), b"pin".to_vec())), None);
    assert_eq!(responder.on_event(&NetworkEvent::Message(peer(1), b"PING".to_vec())), None);
    assert_eq!(responder.on_event(&NetworkEvent::Message(peer(1), Vec::new())), None);
    assert_eq!(responder.on_event(&NetworkEvent::Connect(peer(1))), None);
    assert_eq!(responder.on_event(&NetworkEvent::Disconnect(peer(1))), None);
}

#[test]
fn responder_tick_answers_each_ping_in_order() {
    let mut channel = new_channel();
    let mut responder = Pong::new(&mut channel);
    let mut reader = TcpNetworkListenerSystem;
    reader.on_read(&mut channel, peer(2), ReadOutcome::Read(4), &buffer(b"ping"));
    reader.on_read(&mut channel, peer(1), ReadOutcome::Read(5), &buffer(b"ping!"));
    reader.on_read(&mut channel, peer(3), ReadOutcome::Reset, &buffer(b""));
    reader.on_read(&mut channel, peer(1), ReadOutcome::Read(4), &buffer(b"ping"));
    assert_eq!(
        responder.run(&channel),
        vec![
            Outbound { dest: peer(2), payload: b"pong".to_vec() },
            Outbound { dest: peer(1), payload: b"pong".to_vec() },
        ]
    );
    assert!(responder.run(&channel).is_empty());
}

#[test]
fn responder_and_handler_both_see_every_event() {
    let mut channel = new_channel();
    let mut handler = TcpNetworkEventHandlerSystem::new(&mut channel);
    let mut responder = PongSystemBundle.build(&mut channel);
    let mut reader = TcpNetworkListenerSystem;
    reader.on_read(&mut channel, peer(1), ReadOutcome::Read(4), &buffer(b"ping"));
    let expected = vec![NetworkEvent::Message(peer(1), b"ping".to_vec())];
    assert_eq!(handler.poll(&channel), expected);
    assert_eq!(responder.poll(&channel), expected);
    assert!(handler.poll(&channel).is_empty());
    assert!(responder.poll(&channel).is_empty());
}

#[test]
fn ping_system_asks_every_peer() {
    let mut res: NetworkResource<(), u32> = NetworkResource::new(());
    res.insert(peer(1), 11);
    res.insert(peer(2), 22);
    let plan = Ping.run(&res);
    assert_eq!(
        plan,
        vec![
            Outbound { dest: peer(1), payload: b"ping".to_vec() },
            Outbound { dest: peer(2), payload: b"ping".to_vec() },
        ]
    );
}

#[test]
fn bundle_without_a_server_starts_empty() {
    let mut channel = new_channel();
    let bundle: TcpSystemBundle<&str> = TcpSystemBundle::new("listener", None);
    assert_eq!(bundle.server_addr(), None);
    let systems = bundle.build::<u32>(&mut channel, None);
    assert_eq!(systems.resource.listener(), Some(&"listener"));
    assert_eq!(systems.resource.len(), 0);
}

#[test]
fn bundle_registers_the_server_connection() {
    let mut channel = new_channel();
    let bundle = TcpSystemBundle::new("listener", Some(peer(9)));
    assert_eq!(bundle.server_addr(), Some(peer(9)));
    let systems = bundle.build(&mut channel, Some(99u32));
    assert_eq!(systems.resource.addresses(), vec![peer(9)]);
    assert_eq!(systems.resource.connection(&peer(9)), Some(&99));
}

#[test]
fn bundle_whose_connect_failed_starts_empty() {
    let mut channel = new_channel();
    let bundle = TcpSystemBundle::new("listener", Some(peer(9)));
    let systems = bundle.build::<u32>(&mut channel, None);
    assert_eq!(systems.resource.len(), 0);
    assert_eq!(systems.resource.listener(), Some(&"listener"));
}

#[test]
fn bundle_handler_sees_events_written_after_the_build() {
    let mut channel = new_channel();
    let mut systems = TcpSystemBundle::new((), None).build::<u32>(&mut channel, None);
    systems.acceptor.on_accept(&mut systems.resource, &mut channel, AcceptOutcome::Accepted(peer(1), 11));
    systems.reader.on_read(&mut channel, peer(1), ReadOutcome::Read(2), &buffer(b"ok"));
    assert_eq!(
        systems.handler.poll(&channel),
        vec![NetworkEvent::Connect(peer(1)), NetworkEvent::Message(peer(1), b"ok".to_vec())]
    );
}

#[test]
fn connection_count_over_a_tick() {
    let mut channel = new_channel();
    let mut systems = TcpSystemBundle::new((), None).build::<u32>(&mut channel, None);
    systems.resource.insert(peer(1), 11);
    systems.resource.insert(peer(2), 22);
    systems.resource.insert(peer(3), 33);
    let at_start = systems.resource.len();

    let accepts = vec![
        AcceptOutcome::Accepted(peer(4), 44),
        AcceptOutcome::Failed,
        AcceptOutcome::Accepted(peer(5), 55),
        AcceptOutcome::WouldBlock,
    ];
    let mut accepted = 0;
    for outcome in accepts {
        if let AcceptOutcome::Accepted(..) = outcome {
            accepted += 1;
        }
        if systems.acceptor.on_accept(&mut systems.resource, &mut channel, outcome) == Flow::Done {
            break;
        }
    }
    let reads: Vec<Polled> = systems
        .reader
        .targets(&systems.resource)
        .into_iter()
        .map(|addr| Polled {
            addr,
            outcome: if addr == peer(2) || addr == peer(4) || addr == peer(3) {
                ReadOutcome::Reset
            } else {
                ReadOutcome::WouldBlock
            },
            buf: buffer(b""),
        })
        .collect();
    systems.reader.run(&mut channel, &reads);
    let mut resets = 0;
    for event in systems.handler.poll(&channel).iter() {
        if let Reaction::Disconnected(_) = systems.handler.on_event(&mut systems.resource, event) {
            resets += 1;
        }
    }
    assert_eq!(accepted, 2);
    assert_eq!(resets, 3);
    assert_eq!(systems.resource.len(), at_start + accepted - resets);
    assert_eq!(systems.resource.addresses(), vec![peer(1), peer(5)]);
}

#[test]
fn three_ticks_of_one_peer() {
    let a = peer(1);
    let mut channel = new_channel();
    let mut systems = TcpSystemBundle::new((), None).build::<u32>(&mut channel, None);
    let mut responder = Pong::new(&mut channel);
    let mut written: Vec<(Address, Vec<u8>)> = Vec::new();

    // Tick 1: one pending connection.
    assert_eq!(systems.acceptor.start(&systems.resource), Flow::Again);
    assert_eq!(
        systems.acceptor.on_accept(&mut systems.resource, &mut channel, AcceptOutcome::Accepted(a, 1)),
        Flow::Again
    );
    assert_eq!(
        systems.acceptor.on_accept(&mut systems.resource, &mut channel, AcceptOutcome::WouldBlock),
        Flow::Done
    );
    assert_eq!(systems.resource.addresses(), vec![a]);
    systems.reader.on_read(&mut channel, a, ReadOutcome::WouldBlock, &buffer(b""));
    let events = systems.handler.poll(&channel);
    assert_eq!(events, vec![NetworkEvent::Connect(a)]);
    for event in events.iter() {
        if let Reaction::Send(out) = systems.handler.on_event(&mut systems.resource, event) {
            assert_eq!(systems.resource.send(&out.dest, &out.payload), Ok((&1, &out.payload[..])));
            written.push((out.dest, out.payload));
        }
    }
    for event in responder.poll(&channel).iter() {
        assert_eq!(responder.on_event(event), None);
    }
    assert_eq!(written, vec![(a, b"Thanks for joining the Server".to_vec())]);

    // Tick 2: four bytes arrive.
    written.clear();
    assert_eq!(
        systems.acceptor.on_accept(&mut systems.resource, &mut channel, AcceptOutcome::WouldBlock),
        Flow::Done
    );
    systems.reader.on_read(&mut channel, a, ReadOutcome::Read(4), &buffer(b"ping"));
    let events = systems.handler.poll(&channel);
    assert_eq!(events, vec![NetworkEvent::Message(a, b"ping".to_vec())]);
    for event in events.iter() {
        assert_eq!(systems.handler.on_event(&mut systems.resource, event), Reaction::Received(a));
    }
    for event in responder.poll(&channel).iter() {
        if let Some(out) = responder.on_event(event) {
            assert_eq!(systems.resource.send(&out.dest, &out.payload), Ok((&1, &out.payload[..])));
            written.push((out.dest, out.payload));
        }
    }
    assert_eq!(written, vec![(a, b"pong".to_vec())]);

    // Tick 3: the peer resets.
    systems.reader.on_read(&mut channel, a, ReadOutcome::Reset, &buffer(b""));
    let events = systems.handler.poll(&channel);
    assert_eq!(events, vec![NetworkEvent::Disconnect(a)]);
    for event in events.iter() {
        assert_eq!(systems.handler.on_event(&mut systems.resource, event), Reaction::Disconnected(a));
    }
    assert_eq!(systems.resource.len(), 0);
    assert_eq!(systems.resource.send(&a, b"late"), Err(NetworkError::NotConnected));
}
