use parallax_kernel::amqp::broker::{BusState, ServiceBusMessage};
use parallax_kernel::amqp::connection::{
    handle_amqp_connection, header_failed, parse_subscription_name, run_connection,
    AmqpConnection, StreamEvent,
};
use parallax_kernel::amqp::frames::{
    create_attach_response, create_begin_response, create_disposition_frame, create_flow_frame,
    create_open_response, create_sasl_mechanisms_frame, create_sasl_outcome_frame,
    create_transfer_frame,
};
use parallax_kernel::error::ServerError;

fn bus_with_topic() -> BusState {
    let mut bus = BusState::new();
    assert!(bus.add_queue("orders"));
    assert!(bus.add_topic("test-topic"));
    assert!(bus.add_subscription("test-topic", "test-sub"));
    assert!(bus.add_subscription("test-topic", "audit"));
    bus
}

fn frame_with(performative: u8, text: &[u8]) -> Vec<u8> {
    let mut frame = vec![0, 0, 0, 0, 2, 0, 0, 0, 0, 0x53, performative, 0xC0];
    frame.extend_from_slice(text);
    frame.extend_from_slice(b"\" \x00\x00");
    frame
}

fn attached_to(address: &[u8], bus: &mut BusState) -> AmqpConnection {
    let mut connection = AmqpConnection::new();
    connection.on_frame(b"AMQP\x03\x01\x00\x00", bus);
    connection.on_frame(&frame_with(0x41, b"PLAIN"), bus);
    connection.on_frame(&frame_with(0x10, b""), bus);
    connection.on_frame(&frame_with(0x11, b""), bus);
    connection.on_frame(&frame_with(0x12, address), bus);
    assert!(connection.is_attached());
    connection
}

#[test]
fn stored_message_has_id_and_content_type() {
    let message = ServiceBusMessage::stored(b"body", "token");
    assert_eq!(message.message_id.as_deref(), Some("msg-token"));
    assert_eq!(message.body, b"body".to_vec());
    assert!(message.properties.is_empty());
    assert_eq!(message.content_type.as_deref(), Some("application/octet-stream"));
    assert_eq!(message.subject, None);
    let copy = message.duplicate();
    assert_eq!(copy.message_id, message.message_id);
    assert_eq!(copy.body, message.body);
}

#[test]
fn names_are_declared_once() {
    let mut bus = bus_with_topic();
    assert!(!bus.add_queue("orders"));
    assert!(!bus.add_topic("test-topic"));
    assert!(!bus.add_subscription("test-topic", "audit"));
    assert!(!bus.add_subscription("unknown", "audit"));
    assert_eq!(bus.queue_count(), 1);
    assert_eq!(bus.topic_count(), 1);
}

#[test]
fn queue_message_goes_to_its_queue() {
    let mut bus = bus_with_topic();
    assert!(bus.process_queue_message_as("orders", b"one", "a"));
    assert!(bus.process_queue_message_as("orders", b"two", "b"));
    let messages = bus.queue_messages("orders").unwrap();
    assert_eq!(messages.len(), 2);
    assert_eq!(messages[0].body, b"one".to_vec());
    assert_eq!(messages[0].message_id.as_deref(), Some("msg-a"));
    assert_eq!(messages[1].body, b"two".to_vec());
}

#[test]
fn unknown_queue_stores_nothing() {
    let mut bus = bus_with_topic();
    assert!(!bus.process_queue_message_as("missing", b"one", "a"));
    assert!(bus.queue_messages("missing").is_none());
    assert_eq!(bus.queue_messages("orders").unwrap().len(), 0);
}

#[test]
fn queue_message_gets_a_fresh_id() {
    let mut bus = bus_with_topic();
    assert!(bus.process_queue_message("orders", b"one"));
    assert!(bus.process_queue_message("orders", b"two"));
    let messages = bus.queue_messages("orders").unwrap();
    let first = messages[0].message_id.clone().unwrap();
    let second = messages[1].message_id.clone().unwrap();
    assert_eq!(first.len(), 40);
    assert!(first.starts_with("msg-"));
    let token: Vec<char> = first[4..].chars().collect();
    for (i, c) in token.iter().enumerate() {
        if i == 8 || i == 13 || i == 18 || i == 23 {
            assert_eq!(*c, '-');
        } else {
            assert!(c.is_ascii_digit() || ('a'..='f').contains(c));
        }
    }
    assert_ne!(first, second);
}

#[test]
fn topic_message_goes_to_every_subscription() {
    let mut bus = bus_with_topic();
    assert!(bus.process_topic_message_as("test-topic", b"Hello World", "t"));
    for sub in ["test-sub", "audit"] {
        let messages = bus.subscription_messages("test-topic", sub).unwrap();
        assert_eq!(messages.len(), 1);
        assert_eq!(messages[0].body, b"Hello World".to_vec());
    }
    assert!(!bus.process_topic_message_as("other", b"x", "t"));
    assert!(bus.process_topic_message("test-topic", b"again"));
    assert_eq!(bus.subscription_messages("test-topic", "audit").unwrap().len(), 2);
}

#[test]
fn subscription_hands_out_its_messages_in_order() {
    let mut bus = bus_with_topic();
    bus.process_topic_message_as("test-topic", b"first", "a");
    bus.process_topic_message_as("test-topic", b"second", "b");
    let frames = bus.send_subscription_messages("test-topic", "test-sub");
    assert_eq!(
        frames,
        vec![create_transfer_frame(1, b"first"), create_transfer_frame(2, b"second")]
    );
    assert_eq!(bus.subscription_messages("test-topic", "test-sub").unwrap().len(), 0);
    assert_eq!(bus.subscription_messages("test-topic", "audit").unwrap().len(), 2);
    assert!(bus.send_subscription_messages("test-topic", "test-sub").is_empty());
    assert!(bus.send_subscription_messages("test-topic", "missing").is_empty());
    assert!(bus.send_subscription_messages("missing", "test-sub").is_empty());
}

#[test]
fn topic_hands_out_all_its_subscriptions() {
    let mut bus = bus_with_topic();
    bus.process_topic_message_as("test-topic", b"first", "a");
    bus.send_subscription_messages("test-topic", "audit");
    bus.process_topic_message_as("test-topic", b"second", "b");
    let frames = bus.send_messages_to_subscriptions("test-topic");
    assert_eq!(
        frames,
        vec![
            create_transfer_frame(1, b"first"),
            create_transfer_frame(2, b"second"),
            create_transfer_frame(1, b"second"),
        ]
    );
    assert!(bus.send_messages_to_subscriptions("test-topic").is_empty());
    assert!(bus.send_messages_to_subscriptions("missing").is_empty());
}

#[test]
fn subscription_name_is_split_at_the_infix() {
    assert_eq!(
        parse_subscription_name("topic:mytopic/subscriptions/mysub"),
        Some(("mytopic".to_string(), "mysub".to_string()))
    );
    assert_eq!(
        parse_subscription_name("topic:a/subscriptions/b/subscriptions/c"),
        Some(("a".to_string(), "b/subscriptions/c".to_string()))
    );
    assert_eq!(
        parse_subscription_name("topic:/subscriptions/"),
        Some((String::new(), String::new()))
    );
    assert_eq!(parse_subscription_name("topic:mytopic"), None);
    assert_eq!(parse_subscription_name("queue:q/subscriptions/s"), None);
    assert_eq!(parse_subscription_name(""), None);
}

#[test]
fn address_runs_on_until_a_terminator() {
    let mut bus = bus_with_topic();
    let mut connection = AmqpConnection::new();
    connection.on_frame(b"AMQP\x00\x01\x00\x00", &mut bus);
    connection.on_frame(&[0, 0, 0, 0, 0, 0x53, 0x41, 0, 0, 0], &mut bus);
    connection.on_frame(&[0, 0, 0, 0, 0, 0x53, 0x11, 0, 0, 0], &mut bus);
    connection.on_frame(b"\x00\x00\x00\x00\x00\x53\x12queue:orders\x00\x00\x00\x00", &mut bus);
    assert!(connection.is_attached());
    let transfer = create_transfer_frame(3, b"Hello World");
    assert_eq!(connection.on_frame(&transfer, &mut bus), vec![create_disposition_frame(&transfer)]);
    assert_eq!(bus.queue_messages("orders").unwrap().len(), 0);
}

#[test]
fn greeting_is_the_protocol_header() {
    assert_eq!(AmqpConnection::greeting(), b"AMQP\x00\x01\x00\x00".to_vec());
}

#[test]
fn connection_walks_through_the_handshake() {
    let mut bus = bus_with_topic();
    let mut connection = AmqpConnection::new();
    assert_eq!(
        connection.on_frame(b"AMQP\x03\x01\x00\x00", &mut bus),
        vec![create_sasl_mechanisms_frame()]
    );
    assert_eq!(
        connection.on_frame(&frame_with(0x41, b"PLAIN"), &mut bus),
        vec![create_sasl_outcome_frame(true)]
    );
    assert_eq!(
        connection.on_frame(&frame_with(0x10, b""), &mut bus),
        vec![create_open_response()]
    );
    assert_eq!(
        connection.on_frame(&frame_with(0x10, b""), &mut bus),
        vec![create_open_response()]
    );
    assert_eq!(
        connection.on_frame(&frame_with(0x11, b""), &mut bus),
        vec![create_begin_response()]
    );
    assert!(!connection.is_attached());
    let attach = frame_with(0x12, b"queue:orders");
    assert_eq!(
        connection.on_frame(&attach, &mut bus),
        vec![create_attach_response(&attach), create_flow_frame(100)]
    );
    assert!(connection.is_attached());
}

#[test]
fn frames_out_of_turn_are_ignored() {
    let mut bus = bus_with_topic();
    let mut connection = AmqpConnection::new();
    assert!(connection.on_frame(&frame_with(0x41, b"PLAIN"), &mut bus).is_empty());
    assert!(connection.on_frame(&frame_with(0x10, b""), &mut bus).is_empty());
    assert!(connection.on_frame(&frame_with(0x11, b""), &mut bus).is_empty());
    assert!(connection.on_frame(&frame_with(0x12, b"queue:orders"), &mut bus).is_empty());
    assert!(connection.on_frame(&frame_with(0x14, b"payload of a transfer"), &mut bus).is_empty());
    assert!(!connection.is_attached());
    assert_eq!(
        connection.on_frame(b"AMQP\x03\x01\x00\x00", &mut bus),
        vec![create_sasl_mechanisms_frame()]
    );
    assert!(connection.on_frame(&frame_with(0x10, b""), &mut bus).is_empty());
    assert!(connection.on_frame(&frame_with(0x11, b""), &mut bus).is_empty());
    assert!(connection.on_frame(&frame_with(0x12, b"queue:orders"), &mut bus).is_empty());
    assert_eq!(
        connection.on_frame(&frame_with(0x41, b"PLAIN"), &mut bus),
        vec![create_sasl_outcome_frame(true)]
    );
    assert!(connection.on_frame(&frame_with(0x12, b"queue:orders"), &mut bus).is_empty());
    assert_eq!(
        connection.on_frame(&frame_with(0x11, b""), &mut bus),
        vec![create_begin_response()]
    );
}

#[test]
fn each_stage_is_answered_once() {
    let mut bus = bus_with_topic();
    let mut connection = attached_to(b"queue:orders", &mut bus);
    for frame in [
        b"AMQP\x03\x01\x00\x00".to_vec(),
        frame_with(0x41, b"PLAIN"),
        frame_with(0x10, b""),
        frame_with(0x11, b""),
        frame_with(0x12, b"queue:orders"),
    ] {
        assert!(connection.on_frame(&frame, &mut bus).is_empty());
    }
    assert!(connection.is_attached());
}

#[test]
fn transfer_to_a_queue_is_stored_and_accepted() {
    let mut bus = bus_with_topic();
    let mut connection = attached_to(b"queue:orders", &mut bus);
    let transfer = create_transfer_frame(3, b"Hello World");
    let frames = connection.on_frame_as(&transfer, "", "tok", &mut bus);
    assert_eq!(frames, vec![create_disposition_frame(&transfer)]);
    let messages = bus.queue_messages("orders").unwrap();
    assert_eq!(messages.len(), 1);
    assert_eq!(messages[0].body, b"Hello World".to_vec());
    assert_eq!(messages[0].message_id.as_deref(), Some("msg-tok"));
}

#[test]
fn short_payload_reaches_the_queue() {
    let mut bus = bus_with_topic();
    let mut connection = attached_to(b"queue:orders", &mut bus);
    let transfer = create_transfer_frame(3, b"short");
    assert_eq!(connection.on_frame(&transfer, &mut bus), vec![create_disposition_frame(&transfer)]);
    let empty = create_transfer_frame(4, b"");
    assert_eq!(connection.on_frame(&empty, &mut bus), vec![create_disposition_frame(&empty)]);
    let messages = bus.queue_messages("orders").unwrap();
    assert_eq!(messages.len(), 2);
    assert_eq!(messages[0].body, b"short".to_vec());
    assert_eq!(messages[1].body, Vec::<u8>::new());
}

#[test]
fn transfer_without_a_whole_header_is_ignored() {
    let mut bus = bus_with_topic();
    let mut connection = attached_to(b"queue:orders", &mut bus);
    let cut = frame_with(0x14, b"");
    assert_eq!(cut.len(), 16);
    assert!(connection.on_frame(&cut, &mut bus).is_empty());
    assert_eq!(bus.queue_messages("orders").unwrap().len(), 0);
}

#[test]
fn transfer_to_a_topic_fans_out_and_is_written_back() {
    let mut bus = bus_with_topic();
    let mut connection = attached_to(b"topic:test-topic", &mut bus);
    let transfer = create_transfer_frame(5, b"Hello World");
    let frames = connection.on_frame(&transfer, &mut bus);
    assert_eq!(
        frames,
        vec![
            create_disposition_frame(&transfer),
            create_transfer_frame(1, b"Hello World"),
            create_transfer_frame(1, b"Hello World"),
        ]
    );
    assert_eq!(bus.subscription_messages("test-topic", "test-sub").unwrap().len(), 0);
}

#[test]
fn subscription_link_gets_what_waits_on_timeout() {
    let mut bus = bus_with_topic();
    let connection = attached_to(b"topic:test-topic/subscriptions/test-sub", &mut bus);
    assert!(connection.on_timeout(&mut bus).is_empty());
    bus.process_topic_message_as("test-topic", b"Hello World", "t");
    assert_eq!(connection.on_timeout(&mut bus), vec![create_transfer_frame(1, b"Hello World")]);
    assert!(connection.on_timeout(&mut bus).is_empty());
    assert_eq!(bus.subscription_messages("test-topic", "audit").unwrap().len(), 1);
}

#[test]
fn subscription_link_gets_what_waits_on_any_other_frame() {
    let mut bus = bus_with_topic();
    let mut connection = attached_to(b"topic:test-topic/subscriptions/audit", &mut bus);
    bus.process_topic_message_as("test-topic", b"Hello World", "t");
    assert_eq!(
        connection.on_frame(&[0u8; 12], &mut bus),
        vec![create_transfer_frame(1, b"Hello World")]
    );
}

#[test]
fn amqp_echo() {
    let mut bus = BusState::new();
    bus.add_topic("test-topic");
    bus.add_subscription("test-topic", "test-sub");
    let listener = attached_to(b"topic:test-topic/subscriptions/test-sub", &mut bus);
    let mut other = BusState::new();
    other.add_topic("test-topic");
    other.add_subscription("test-topic", "test-sub");
    let mut sender = attached_to(b"topic:test-topic", &mut other);
    let transfer = create_transfer_frame(1, b"Hello World");
    let written = sender.on_frame(&transfer, &mut other);
    assert_eq!(written.len(), 2);
    bus.process_topic_message("test-topic", b"Hello World");
    let frames = listener.on_timeout(&mut bus);
    assert_eq!(frames.len(), 1);
    assert_eq!(&frames[0][20..], b"Hello World");
}

#[test]
fn stream_events_end_or_continue_the_connection() {
    let mut bus = bus_with_topic();
    let mut connection = AmqpConnection::new();
    let step = handle_amqp_connection(
        &mut connection,
        StreamEvent::Data(b"AMQP\x00\x01\x00\x00".to_vec()),
        &mut bus,
    );
    assert!(step.finished.is_none());
    assert_eq!(step.frames, vec![create_sasl_mechanisms_frame()]);
    let step = handle_amqp_connection(&mut connection, StreamEvent::TimedOut, &mut bus);
    assert!(step.finished.is_none());
    assert!(step.frames.is_empty());
    let step = handle_amqp_connection(
        &mut connection,
        StreamEvent::Failed("reset".to_string()),
        &mut bus,
    );
    assert!(
        matches!(step.finished, Some(Err(ServerError::RuntimeError(ref m))) if m == "Failed to read from stream: reset")
    );
    let step = handle_amqp_connection(&mut connection, StreamEvent::Data(Vec::new()), &mut bus);
    assert!(matches!(step.finished, Some(Ok(()))));
}

#[test]
fn failed_header_is_a_runtime_error() {
    assert!(
        matches!(header_failed("broken pipe"), ServerError::RuntimeError(ref m) if m == "Failed to send protocol header: broken pipe")
    );
}

#[test]
fn connection_is_served_from_the_header_to_its_end() {
    let mut bus = bus_with_topic();
    let attach = frame_with(0x12, b"queue:orders");
    let transfer = create_transfer_frame(7, b"Hello World");
    let events = vec![
        StreamEvent::Data(b"AMQP\x03\x01\x00\x00".to_vec()),
        StreamEvent::Data(frame_with(0x41, b"PLAIN")),
        StreamEvent::TimedOut,
        StreamEvent::Data(frame_with(0x10, b"")),
        StreamEvent::Data(frame_with(0x11, b"")),
        StreamEvent::Data(attach.clone()),
        StreamEvent::Data(transfer.clone()),
        StreamEvent::Data(Vec::new()),
        StreamEvent::Data(transfer.clone()),
    ];
    let (written, ended) = run_connection(events, &mut bus);
    assert_eq!(
        written,
        vec![
            b"AMQP\x00\x01\x00\x00".to_vec(),
            create_sasl_mechanisms_frame(),
            create_sasl_outcome_frame(true),
            create_open_response(),
            create_begin_response(),
            create_attach_response(&attach),
            create_flow_frame(100),
            create_disposition_frame(&transfer),
        ]
    );
    assert!(matches!(ended, Some(Ok(()))));
    let messages = bus.queue_messages("orders").unwrap();
    assert_eq!(messages.len(), 1);
    assert_eq!(messages[0].body, b"Hello World".to_vec());
}

#[test]
fn header_is_written_whatever_the_stream_does() {
    let mut bus = bus_with_topic();
    let (written, ended) = run_connection(Vec::new(), &mut bus);
    assert_eq!(written, vec![b"AMQP\x00\x01\x00\x00".to_vec()]);
    assert!(ended.is_none());
    let events = vec![
        StreamEvent::Data(frame_with(0x11, b"")),
        StreamEvent::Failed("reset".to_string()),
        StreamEvent::Data(b"AMQP\x03\x01\x00\x00".to_vec()),
    ];
    let (written, ended) = run_connection(events, &mut bus);
    assert_eq!(written, vec![b"AMQP\x00\x01\x00\x00".to_vec()]);
    assert!(
        matches!(ended, Some(Err(ServerError::RuntimeError(ref m))) if m == "Failed to read from stream: reset")
    );
}

#[test]
fn id_is_drawn_for_a_routed_payload() {
    let mut bus = bus_with_topic();
    let mut connection = attached_to(b"queue:orders", &mut bus);
    let transfer = create_transfer_frame(3, b"Hello World");
    assert_eq!(connection.on_frame(&transfer, &mut bus), vec![create_disposition_frame(&transfer)]);
    let (written, _) = run_connection(
        vec![
            StreamEvent::Data(b"AMQP\x03\x01\x00\x00".to_vec()),
            StreamEvent::Data(frame_with(0x41, b"PLAIN")),
            StreamEvent::Data(frame_with(0x11, b"")),
            StreamEvent::Data(frame_with(0x12, b"queue:orders")),
            StreamEvent::Data(transfer.clone()),
        ],
        &mut bus,
    );
    assert_eq!(written.last(), Some(&create_disposition_frame(&transfer)));
    let messages = bus.queue_messages("orders").unwrap();
    assert_eq!(messages.len(), 2);
    for message in messages {
        let id = message.message_id.clone().unwrap();
        assert_eq!(id.len(), 4 + 36);
        assert!(id.starts_with("msg-"));
        let token = &id[4..];
        for (at, c) in token.chars().enumerate() {
            if at == 8 || at == 13 || at == 18 || at == 23 {
                assert_eq!(c, '-');
            } else {
                assert!(c.is_ascii_digit() || ('a'..='f').contains(&c));
            }
        }
    }
    assert_ne!(messages[0].message_id, messages[1].message_id);
}
