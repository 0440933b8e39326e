use parallax_kernel::azure::{
    callback_address, callback_status, script_outcome, send_azure_message, send_command_for,
    start_py_server, status_for, AzureMessage, AzureTopicClient, AzureTopicListener,
    AzureTopicSender, ClientAction, Drain, DrainStep, EchoServiceBusMsgHandler, SendMessage,
    SendOutcome, ServiceBusMsgHandler,
};
use parallax_kernel::error::{ActorError, ErrorKind, KernelError, ServerError, VoidRes};
use parallax_kernel::link::{advance_link, LinkAction, LinkEvent, LinkPhase, LinkState};
use parallax_kernel::mailbox::{Delivery, Mailbox};
use parallax_kernel::runtime::ActorServiceMessage;

struct Picky;

impl ServiceBusMsgHandler for Picky {
    fn process(&mut self, message: &str) -> VoidRes {
        if message.contains('\u{fffd}') {
            Err(KernelError::client("not text"))
        } else {
            Ok(())
        }
    }
}

fn listener() -> AzureTopicListener<String> {
    AzureTopicListener::new(
        "Test",
        "amqp://localhost:5672",
        "test-topic",
        "test-sub",
        vec![Mailbox::new(4), Mailbox::new(4)],
    )
}

fn connected() -> AzureTopicListener<String> {
    let mut l = listener();
    assert_eq!(l.handle(ActorServiceMessage::Start).next, LinkAction::Connect);
    assert_eq!(l.on_event(LinkEvent::Attached).next, LinkAction::Receive);
    l
}

#[test]
fn azure_smoke() {
    let mut sender: AzureTopicSender<String> =
        AzureTopicSender::new("Sender", "amqp://localhost:5672", "test-topic");
    assert_eq!(sender.container_id(), "Sender");
    assert_eq!(sender.link_name(), "Sender-sender-link");
    assert_eq!(sender.address(), "test-topic");
    sender.connection_established();
    assert!(sender.handle(SendMessage("Hello World".to_string())).is_ok());
    let sent = sender.next_send().unwrap();
    assert!(sender.send_finished(SendOutcome::Accepted).is_none());

    let mut l = connected();
    assert_eq!(l.container_id(), "Test");
    assert_eq!(l.link_name(), "listener-link");
    assert_eq!(l.address(), "test-topic/Subscriptions/test-sub");
    assert_eq!(l.deliver(sent).next, LinkAction::Accept);
    let step = l.on_event(LinkEvent::Settled);
    assert!(step.forward);
    assert_eq!(step.next, LinkAction::Receive);
    for i in 0..2 {
        assert!(matches!(l.receive(i), Delivery::Message(ref m) if m == "Hello World"));
        assert!(matches!(l.receive(i), Delivery::Empty));
    }
    let step = l.handle(ActorServiceMessage::Stop);
    assert!(step.close);
    assert_eq!(step.next, LinkAction::Exit);
    assert_eq!(l.state().phase, LinkPhase::Terminated);
}

#[test]
fn tests_smoke_client() {
    let client = AzureTopicClient::default();
    assert_eq!(client.id(), "test-topic-test-sub");
    let action = client.process(AzureMessage::SendMessage("test".as_bytes().to_vec())).unwrap();
    match action {
        ClientAction::Run(command) => {
            assert_eq!(command.program, "python");
            assert_eq!(
                command.args,
                vec![
                    "src/servers/azure/sb-emulator/send_message.py",
                    "--topic",
                    "test-topic",
                    "--base64",
                    "dGVzdA==",
                ]
            );
        }
        other => panic!("expected a command, got {:?}", other),
    }
    assert!(matches!(client.process(AzureMessage::Stop), Ok(ClientAction::Abort)));
    assert!(matches!(client.process(AzureMessage::Start), Ok(ClientAction::Nothing)));
}

#[test]
fn payload_that_is_not_text_is_a_runtime_error() {
    let client = AzureTopicClient::new("ns", ("policy", "key"), "t", "s");
    assert_eq!(client.id(), "t-s");
    let refused = client.process(AzureMessage::SendMessage(vec![b'a', 0xff, b'b']));
    match refused {
        Err(KernelError::ServerError(ServerError::RuntimeError(m))) => {
            assert_eq!(m, "invalid utf-8 sequence of 1 bytes from index 1");
        }
        other => panic!("expected a runtime error, got {:?}", other),
    }
    let refused =
        client.process_checked(AzureMessage::SendMessage(b"ok".to_vec()), Some("said so".to_string()));
    assert!(
        matches!(refused, Err(KernelError::ServerError(ServerError::RuntimeError(ref m))) if m == "said so")
    );
}

#[test]
fn message_is_sent_as_base64() {
    let command = send_azure_message("news", b"Hello World").unwrap();
    assert_eq!(command.args[4], "SGVsbG8gV29ybGQ=");
    assert_eq!(command.args[2], "news");
    assert!(command.env.is_empty());
    assert!(!command.kill_on_drop);
    assert_eq!(send_azure_message("news", &[]).unwrap().args[4], "");
    assert_eq!(send_azure_message("news", &[0xfb, 0xff]).unwrap().args[4], "+/8=");
    let command = send_command_for("t", "QQ==".to_string());
    assert_eq!(
        command.args,
        vec!["src/servers/azure/sb-emulator/send_message.py", "--topic", "t", "--base64", "QQ=="]
    );
}

#[test]
fn listening_script_gets_its_arguments() {
    let command = start_py_server("Endpoint=sb://localhost", "test-sub", "test-topic", &callback_address(10000));
    assert_eq!(command.program, "python");
    assert_eq!(
        command.args,
        vec![
            "src/actors/servers/azure/sb-emulator/client_test.py",
            "--topic",
            "test-topic",
            "--sub",
            "test-sub",
            "--conn",
            "Endpoint=sb://localhost",
            "--ret",
            "http://localhost:10000/ret",
        ]
    );
    assert_eq!(command.env, vec![("PYTHONUNBUFFERED".to_string(), "1".to_string())]);
    assert!(command.kill_on_drop);
    assert_eq!(callback_address(0), "http://localhost:0/ret");
}

#[test]
fn failed_script_is_a_runtime_error() {
    assert!(script_outcome(true, "exit status: 0").is_ok());
    assert!(
        matches!(script_outcome(false, "exit status: 2"), Err(KernelError::ServerError(ServerError::RuntimeError(ref m))) if m == "Python script failed with status: exit status: 2")
    );
}

#[test]
fn callback_answers_with_the_status_of_the_handler() {
    assert_eq!(callback_status(&mut EchoServiceBusMsgHandler, b"Hello"), 200);
    assert_eq!(callback_status(&mut EchoServiceBusMsgHandler, &[0xff]), 200);
    assert_eq!(callback_status(&mut Picky, b"Hello"), 200);
    assert_eq!(callback_status(&mut Picky, &[b'a', 0xff]), 500);
    assert_eq!(status_for(&Ok(())), 200);
    assert_eq!(status_for(&Err(KernelError::client("no"))), 500);
}

#[test]
fn listener_retries_after_five_seconds() {
    let mut l = listener();
    assert_eq!(l.state().phase, LinkPhase::Disconnected);
    let step = l.handle(ActorServiceMessage::Start);
    assert_eq!((step.state.phase, step.next), (LinkPhase::Connecting(1), LinkAction::Connect));
    let step = l.on_event(LinkEvent::AttachFailed);
    assert_eq!((step.state.phase, step.next), (LinkPhase::Waiting(1), LinkAction::Wait));
    let step = l.on_event(LinkEvent::DelayElapsed);
    assert_eq!((step.state.phase, step.next), (LinkPhase::Connecting(2), LinkAction::Connect));
    let step = l.handle(ActorServiceMessage::Start);
    assert_eq!((step.state.phase, step.next), (LinkPhase::Connecting(2), LinkAction::Nothing));
    let step = l.on_event(LinkEvent::Attached);
    assert_eq!((step.state.phase, step.next), (LinkPhase::Connected, LinkAction::Receive));
    let step = l.on_event(LinkEvent::ReceiveFailed);
    assert_eq!((step.state.phase, step.close, step.next), (LinkPhase::Waiting(0), true, LinkAction::Wait));
    assert_eq!(parallax_kernel::link::RETRY_DELAY_SECS, 5);
}

#[test]
fn delivery_is_forwarded_only_when_settled() {
    let mut l = connected();
    l.deliver("one".to_string());
    let step = l.on_event(LinkEvent::SettleFailed);
    assert!(!step.forward && step.close);
    assert_eq!(step.state.phase, LinkPhase::Waiting(0));
    assert!(matches!(l.receive(0), Delivery::Empty));
    l.on_event(LinkEvent::DelayElapsed);
    l.on_event(LinkEvent::Attached);
    assert!(!l.on_event(LinkEvent::Settled).forward);
    l.deliver("two".to_string());
    assert_eq!(l.deliver("ignored".to_string()).next, LinkAction::Nothing);
    assert!(l.on_event(LinkEvent::Settled).forward);
    assert!(!l.on_event(LinkEvent::Settled).forward);
    assert!(matches!(l.receive(0), Delivery::Message(ref m) if m == "two"));
    assert!(matches!(l.receive(0), Delivery::Empty));
    assert!(matches!(l.receive(1), Delivery::Message(ref m) if m == "two"));
}

#[test]
fn shutdown_finishes_the_delivery_at_hand() {
    let mut l = connected();
    l.deliver("last".to_string());
    let step = l.handle(ActorServiceMessage::Stop);
    assert_eq!((step.state.phase, step.next), (LinkPhase::Settling, LinkAction::Nothing));
    assert!(step.state.shutdown);
    let step = l.on_event(LinkEvent::Settled);
    assert!(step.forward && step.close);
    assert_eq!((step.state.phase, step.next), (LinkPhase::Terminated, LinkAction::Exit));
    assert!(matches!(l.receive(0), Delivery::Message(ref m) if m == "last"));
    assert_eq!(l.on_event(LinkEvent::Begin).next, LinkAction::Nothing);
    assert_eq!(l.subscriber_count(), 2);
}

#[test]
fn shutdown_stops_the_retrying() {
    let start = LinkState { phase: LinkPhase::Waiting(3), shutdown: false };
    let step = advance_link(start, LinkEvent::Shutdown);
    assert_eq!((step.state.phase, step.close, step.next), (LinkPhase::Terminated, false, LinkAction::Exit));
    let start = LinkState { phase: LinkPhase::Connecting(3), shutdown: false };
    let step = advance_link(start, LinkEvent::Shutdown);
    assert_eq!((step.state.phase, step.next), (LinkPhase::Connecting(3), LinkAction::Nothing));
    let failed = advance_link(step.state, LinkEvent::AttachFailed);
    assert_eq!((failed.state.phase, failed.close, failed.next), (LinkPhase::Terminated, false, LinkAction::Exit));
    let attached = advance_link(step.state, LinkEvent::Attached);
    assert_eq!((attached.state.phase, attached.close, attached.next), (LinkPhase::Terminated, true, LinkAction::Exit));
    let start = LinkState { phase: LinkPhase::Waiting(u32::MAX), shutdown: false };
    assert_eq!(advance_link(start, LinkEvent::DelayElapsed).state.phase, LinkPhase::Connecting(u32::MAX));
}

#[test]
fn stale_subscribers_of_a_listener_get_nothing() {
    let mut closed: Mailbox<String> = Mailbox::new(2);
    closed.close();
    let mut l = AzureTopicListener::new("k", "u", "t", "s", vec![closed, Mailbox::new(2)]);
    assert_eq!(l.id(), "t-s");
    assert_eq!(l.url(), "u");
    l.handle(ActorServiceMessage::Start);
    l.on_event(LinkEvent::Attached);
    l.deliver("x".to_string());
    l.on_event(LinkEvent::Settled);
    assert_eq!(l.subscriber_count(), 1);
    assert!(matches!(l.receive(0), Delivery::Message(ref m) if m == "x"));
}

#[test]
fn sender_drains_in_the_order_of_arrival() {
    let mut sender: AzureTopicSender<u32> = AzureTopicSender::new("k", "amqp://h:1", "t");
    assert_eq!(sender.url(), "amqp://h:1");
    assert!(!sender.is_connected());
    for i in 1..=3 {
        sender.handle(SendMessage(i)).unwrap();
    }
    assert_eq!(sender.pending(), 3);
    assert_eq!(sender.next_send(), None);
    sender.connection_established();
    assert_eq!(sender.next_send(), Some(1));
    assert_eq!(sender.next_send(), None);
    assert!(sender.send_finished(SendOutcome::Accepted).is_none());
    assert_eq!(sender.next_send(), Some(2));
    let fault = sender.send_finished(SendOutcome::NotAccepted("Rejected".to_string())).unwrap();
    assert!(matches!(fault, ActorError::RuntimeError(ref m) if m == "Message not accepted: Rejected"));
    assert_eq!(sender.next_send(), Some(3));
    assert_eq!(sender.next_send(), None);
    assert_eq!(sender.pending(), 0);
}

#[test]
fn sender_keeps_what_waits_when_the_connection_is_lost() {
    let mut sender: AzureTopicSender<u32> = AzureTopicSender::new("k", "u", "t");
    sender.connection_established();
    sender.handle(SendMessage(1)).unwrap();
    sender.handle(SendMessage(2)).unwrap();
    assert_eq!(sender.next_send(), Some(1));
    let fault = sender.send_finished(SendOutcome::Failed(1, "link detached".to_string())).unwrap();
    assert!(matches!(fault, ActorError::RuntimeError(ref m) if m == "Send failed: link detached"));
    assert!(!sender.is_connected());
    assert_eq!(sender.pending(), 2);
    assert_eq!(sender.next_send(), None);
    assert!(sender.connection_lost());
    sender.connection_established();
    assert_eq!(sender.next_send(), Some(1));
    sender.send_finished(SendOutcome::Accepted);
    assert_eq!(sender.next_send(), Some(2));
}

#[test]
fn stopped_sender_takes_and_sends_nothing() {
    let mut sender: AzureTopicSender<u32> = AzureTopicSender::new("k", "u", "t");
    sender.connection_established();
    sender.handle(SendMessage(1)).unwrap();
    assert!(sender.handle_service(ActorServiceMessage::Start).is_ok());
    assert!(sender.is_connected());
    assert!(sender.handle_service(ActorServiceMessage::Stop).is_ok());
    assert!(sender.handle_service(ActorServiceMessage::Stop).is_ok());
    assert!(!sender.is_connected());
    assert_eq!(sender.next_send(), None);
    assert_eq!(sender.pending(), 1);
    let refused = sender.handle(SendMessage(2)).unwrap_err();
    assert_eq!((refused.kind(), refused.message().as_str()), (ErrorKind::Channel, "Closed"));
    sender.connection_established();
    assert!(!sender.is_connected());
    assert!(!sender.connection_lost());
}

#[test]
fn subscriber_of_a_listener_can_be_marked_as_stale() {
    let mut l = connected();
    l.close_subscriber(0);
    l.deliver("x".to_string());
    assert!(l.on_event(LinkEvent::Settled).forward);
    assert_eq!(l.subscriber_count(), 1);
    assert!(matches!(l.receive(0), Delivery::Message(ref m) if m == "x"));
}

#[test]
fn drain_returns_the_first_fault_and_sends_on() {
    let mut sender: AzureTopicSender<u32> = AzureTopicSender::new("k", "u", "t");
    sender.connection_established();
    for i in 1..=3 {
        sender.handle(SendMessage(i)).unwrap();
    }
    let mut drain = Drain::begin(&sender);
    assert!(matches!(drain.next(&mut sender), DrainStep::Send(1)));
    assert!(!drain.settle(&mut sender, SendOutcome::NotAccepted("Rejected".to_string())));
    assert!(matches!(drain.next(&mut sender), DrainStep::Send(2)));
    assert!(!drain.settle(&mut sender, SendOutcome::NotAccepted("Released".to_string())));
    assert!(matches!(drain.next(&mut sender), DrainStep::Send(3)));
    assert!(!drain.settle(&mut sender, SendOutcome::Accepted));
    match drain.next(&mut sender) {
        DrainStep::Done(Err(ActorError::RuntimeError(message))) => {
            assert_eq!(message, "Message not accepted: Rejected")
        }
        other => panic!("expected the first fault, got {:?}", other),
    }
    assert_eq!(sender.pending(), 0);
}

#[test]
fn drain_connects_again_after_a_failed_send() {
    let mut sender: AzureTopicSender<u32> = AzureTopicSender::new("k", "u", "t");
    sender.handle(SendMessage(1)).unwrap();
    sender.handle(SendMessage(2)).unwrap();
    let mut drain = Drain::begin(&sender);
    assert!(matches!(drain.next(&mut sender), DrainStep::Reconnect));
    drain.reconnected(&mut sender, true);
    assert!(sender.is_connected());
    assert!(matches!(drain.next(&mut sender), DrainStep::Send(1)));
    assert!(drain.settle(&mut sender, SendOutcome::Failed(1, "link detached".to_string())));
    assert!(!sender.is_connected());
    assert_eq!(sender.pending(), 2);
    assert!(matches!(drain.next(&mut sender), DrainStep::Reconnect));
    drain.reconnected(&mut sender, true);
    assert!(matches!(drain.next(&mut sender), DrainStep::Send(1)));
    assert!(!drain.settle(&mut sender, SendOutcome::Accepted));
    assert!(matches!(drain.next(&mut sender), DrainStep::Send(2)));
    assert!(!drain.settle(&mut sender, SendOutcome::Accepted));
    match drain.next(&mut sender) {
        DrainStep::Done(Err(ActorError::RuntimeError(message))) => {
            assert_eq!(message, "Send failed: link detached")
        }
        other => panic!("expected the fault of the failed send, got {:?}", other),
    }
}

#[test]
fn drain_gives_up_when_the_connection_stays_down() {
    let mut sender: AzureTopicSender<u32> = AzureTopicSender::new("k", "u", "t");
    sender.connection_established();
    sender.handle(SendMessage(1)).unwrap();
    let mut drain = Drain::begin(&sender);
    assert!(matches!(drain.next(&mut sender), DrainStep::Send(1)));
    assert!(drain.settle(&mut sender, SendOutcome::Failed(1, "reset".to_string())));
    assert!(matches!(drain.next(&mut sender), DrainStep::Reconnect));
    drain.reconnected(&mut sender, false);
    assert!(matches!(drain.next(&mut sender), DrainStep::Done(Err(_))));
    assert!(matches!(drain.next(&mut sender), DrainStep::Done(Err(_))));
    assert_eq!(sender.pending(), 1);
    assert!(!sender.is_connected());

    let mut idle: AzureTopicSender<u32> = AzureTopicSender::new("k", "u", "t");
    let mut drain = Drain::begin(&idle);
    assert!(matches!(drain.next(&mut idle), DrainStep::Reconnect));
    drain.reconnected(&mut idle, false);
    assert!(matches!(drain.next(&mut idle), DrainStep::Done(Ok(()))));
}

#[test]
fn stopped_sender_does_not_connect_again() {
    let mut sender: AzureTopicSender<u32> = AzureTopicSender::new("k", "u", "t");
    sender.connection_established();
    sender.handle(SendMessage(1)).unwrap();
    let mut drain = Drain::begin(&sender);
    assert!(matches!(drain.next(&mut sender), DrainStep::Send(1)));
    sender.handle_service(ActorServiceMessage::Stop).unwrap();
    assert!(drain.settle(&mut sender, SendOutcome::Failed(1, "closed".to_string())));
    match drain.next(&mut sender) {
        DrainStep::Done(Err(ActorError::RuntimeError(message))) => {
            assert_eq!(message, "Send failed: closed")
        }
        other => panic!("expected the run to end, got {:?}", other),
    }
    assert_eq!(sender.pending(), 1);
}
