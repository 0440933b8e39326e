use parallax_kernel::error::{ActorError, ActorResultVoid, ErrorKind};
use parallax_kernel::lifecycle::{advance, Directive, Phase, Signal};
use parallax_kernel::runtime::settle_start;
use parallax_kernel::mailbox::{Delivery, Mailbox, TrySendError};
use parallax_kernel::runtime::{
    after_stop, severity, spawn_server, ActorServiceMessage, EchoActor, ErrorHandler, Server,
    Severity, Teardown, Turn,
};
use parallax_kernel::subscription::{fan_out, prune, publish};

struct Recorder {
    fail_start: bool,
    seen: Vec<u32>,
    stops: u32,
}

impl Recorder {
    fn new() -> Self {
        Recorder { fail_start: false, seen: Vec::new(), stops: 0 }
    }
}

impl Server<u32> for Recorder {
    fn start(&mut self) -> ActorResultVoid {
        if self.fail_start {
            Err(ActorError::RuntimeError("no socket".to_string()))
        } else {
            Ok(())
        }
    }

    fn stop(&mut self) -> ActorResultVoid {
        self.stops += 1;
        if self.seen.contains(&13) {
            Err(ActorError::RuntimeError("unclean".to_string()))
        } else {
            Ok(())
        }
    }

    fn process(&mut self, message: u32) -> ActorResultVoid {
        self.seen.push(message);
        match message {
            7 => Err(ActorError::RuntimeError("seven".to_string())),
            8 => Err(ActorError::StartupError("eight".to_string())),
            9 => Err(ActorError::ShutdownError("nine".to_string())),
            _ => Ok(()),
        }
    }
}

#[test]
fn mailbox_is_first_in_first_out() {
    let mut mailbox: Mailbox<u32> = Mailbox::new(3);
    assert!(mailbox.is_empty());
    assert_eq!(mailbox.capacity(), 3);
    assert!(mailbox.try_send(1).is_ok());
    assert!(mailbox.try_send(2).is_ok());
    assert_eq!(mailbox.len(), 2);
    assert!(matches!(mailbox.try_recv(), Delivery::Message(1)));
    assert!(matches!(mailbox.try_recv(), Delivery::Message(2)));
    assert!(matches!(mailbox.try_recv(), Delivery::Empty));
}

#[test]
fn default_mailbox_holds_thirty_two() {
    let mailbox: Mailbox<u8> = Mailbox::with_default_capacity();
    assert_eq!(mailbox.capacity(), 32);
    assert!(!mailbox.is_closed());
}

#[test]
fn one_message_more_than_the_capacity_is_refused_as_full() {
    for capacity in [1usize, 2, 32] {
        let mut mailbox: Mailbox<usize> = Mailbox::new(capacity);
        for i in 0..capacity {
            assert!(mailbox.try_send(i).is_ok());
        }
        assert!(matches!(mailbox.try_send(capacity), Err(TrySendError::Full(m)) if m == capacity));
        assert_eq!(mailbox.len(), capacity);
    }
}

#[test]
fn closed_mailbox_refuses_and_still_hands_out() {
    let mut mailbox: Mailbox<u32> = Mailbox::new(1);
    assert!(mailbox.try_send(1).is_ok());
    mailbox.close();
    assert!(mailbox.is_closed());
    assert!(matches!(mailbox.try_send(2), Err(TrySendError::Closed(2))));
    assert!(matches!(mailbox.try_recv(), Delivery::Message(1)));
    assert!(matches!(mailbox.try_recv(), Delivery::Closed));
    assert!(matches!(mailbox.try_recv(), Delivery::Closed));
}

#[test]
fn lifecycle_of_a_healthy_actor() {
    let step = advance(Phase::Created, Signal::Spawned);
    assert_eq!((step.phase, step.report, step.next), (Phase::Starting, None, Directive::Start));
    let step = advance(step.phase, Signal::StartSucceeded);
    assert_eq!((step.phase, step.report, step.next), (Phase::Running, None, Directive::Receive));
    let step = advance(step.phase, Signal::Received);
    assert_eq!((step.phase, step.next), (Phase::Running, Directive::Process));
    let step = advance(step.phase, Signal::Processed);
    assert_eq!((step.phase, step.next), (Phase::Running, Directive::Receive));
    let step = advance(step.phase, Signal::Closed);
    assert_eq!((step.phase, step.report, step.next), (Phase::Stopping, None, Directive::Stop));
    let step = advance(step.phase, Signal::Stopped);
    assert_eq!((step.phase, step.report, step.next), (Phase::Terminated, None, Directive::Exit));
}

#[test]
fn lifecycle_reports_by_class() {
    let step = advance(Phase::Starting, Signal::StartFailed);
    assert_eq!(
        (step.phase, step.report, step.next),
        (Phase::Terminated, Some(ErrorKind::Startup), Directive::Exit)
    );
    let step = advance(Phase::Running, Signal::ProcessFailed(ErrorKind::Runtime));
    assert_eq!(
        (step.phase, step.report, step.next),
        (Phase::Running, Some(ErrorKind::Runtime), Directive::Receive)
    );
    let step = advance(Phase::Running, Signal::ProcessFailed(ErrorKind::Startup));
    assert_eq!(step.report, Some(ErrorKind::Runtime));
    let step = advance(Phase::Running, Signal::ProcessFailed(ErrorKind::Channel));
    assert_eq!((step.phase, step.report), (Phase::Running, Some(ErrorKind::Channel)));
    let step = advance(Phase::Running, Signal::ProcessFailed(ErrorKind::Shutdown));
    assert_eq!(
        (step.phase, step.report, step.next),
        (Phase::Stopping, Some(ErrorKind::Shutdown), Directive::Stop)
    );
    let step = advance(Phase::Stopping, Signal::StopFailed);
    assert_eq!(
        (step.phase, step.report, step.next),
        (Phase::Terminated, Some(ErrorKind::Shutdown), Directive::Exit)
    );
}

#[test]
fn lifecycle_ignores_what_does_not_apply() {
    for (phase, signal) in [
        (Phase::Created, Signal::Received),
        (Phase::Created, Signal::Closed),
        (Phase::Starting, Signal::Received),
        (Phase::Running, Signal::Spawned),
        (Phase::Stopping, Signal::Closed),
        (Phase::Stopping, Signal::Received),
        (Phase::Terminated, Signal::Spawned),
        (Phase::Terminated, Signal::Closed),
        (Phase::Terminated, Signal::Received),
    ] {
        let step = advance(phase, signal);
        assert_eq!((step.phase, step.report, step.next), (phase, None, Directive::Ignore));
    }
}

#[test]
fn error_sink_keeps_the_order_and_a_hundred_records() {
    let mut sink = ErrorHandler::new();
    for i in 0..100 {
        assert!(sink.report(ActorError::RuntimeError(format!("e{}", i))));
    }
    assert!(!sink.report(ActorError::RuntimeError("one too many".to_string())));
    let records = sink.handle_errors();
    assert_eq!(records.len(), 100);
    assert_eq!(records[0].message(), "e0");
    assert_eq!(records[99].message(), "e99");
    assert!(sink.handle_errors().is_empty());
    assert!(sink.report(ActorError::SystemError("late".to_string())));
}

#[test]
fn failed_start_yields_a_startup_error_and_no_actor() {
    let mut sink = ErrorHandler::new();
    let mut recorder = Recorder::new();
    recorder.fail_start = true;
    let spawned = spawn_server(recorder, &mut sink);
    match spawned {
        Err(error) => {
            assert_eq!(error.kind(), ErrorKind::Startup);
            assert_eq!(error.message(), "no socket");
        }
        Ok(_) => panic!("a failed start must not yield an actor"),
    }
    let records = sink.handle_errors();
    assert_eq!(records.len(), 1);
    assert_eq!(records[0].kind(), ErrorKind::Startup);
    assert_eq!(records[0].message(), "no socket");
}

#[test]
fn messages_are_processed_in_the_order_sent() {
    let mut sink = ErrorHandler::new();
    let mut cell = spawn_server(Recorder::new(), &mut sink).ok().unwrap();
    assert_eq!(cell.phase(), Phase::Running);
    for i in 1..=5 {
        assert!(cell.send(i).is_ok());
    }
    assert_eq!(cell.in_flight(), 5);
    assert_eq!(cell.run(&mut sink), 5);
    assert_eq!(cell.in_flight(), 0);
    assert_eq!(cell.phase(), Phase::Running);
    assert!(matches!(cell.turn(&mut sink), Turn::Idle));
    assert!(sink.handle_errors().is_empty());
}

#[test]
fn runtime_errors_are_reported_and_the_actor_goes_on() {
    let mut sink = ErrorHandler::new();
    let mut cell = spawn_server(Recorder::new(), &mut sink).ok().unwrap();
    for message in [1, 7, 8, 2] {
        cell.send(message).unwrap();
    }
    assert_eq!(cell.run(&mut sink), 4);
    assert_eq!(cell.phase(), Phase::Running);
    let records = sink.handle_errors();
    assert_eq!(records.len(), 2);
    assert_eq!((records[0].kind(), records[0].message().as_str()), (ErrorKind::Runtime, "seven"));
    assert_eq!((records[1].kind(), records[1].message().as_str()), (ErrorKind::Runtime, "eight"));
}

#[test]
fn shutdown_error_ends_the_actor() {
    let mut sink = ErrorHandler::new();
    let mut cell = spawn_server(Recorder::new(), &mut sink).ok().unwrap();
    for message in [1, 9, 2] {
        cell.send(message).unwrap();
    }
    assert_eq!(cell.run(&mut sink), 2);
    assert_eq!(cell.phase(), Phase::Terminated);
    assert_eq!(cell.teardowns(), 1);
    let records = sink.handle_errors();
    assert_eq!(records.len(), 1);
    assert_eq!(records[0].kind(), ErrorKind::Shutdown);
    assert!(matches!(cell.turn(&mut sink), Turn::Done));
    let refused = cell.send(3).unwrap_err();
    assert_eq!((refused.kind(), refused.message().as_str()), (ErrorKind::Channel, "Closed"));
}

#[test]
fn stop_is_idempotent_and_tears_down_once() {
    let mut sink = ErrorHandler::new();
    let mut cell = spawn_server(Recorder::new(), &mut sink).ok().unwrap();
    cell.send(1).unwrap();
    assert!(cell.control(ActorServiceMessage::Stop).is_ok());
    assert!(cell.control(ActorServiceMessage::Stop).is_ok());
    let refused = cell.send(2).unwrap_err();
    assert_eq!((refused.kind(), refused.message().as_str()), (ErrorKind::Channel, "Closed"));
    assert!(matches!(cell.turn(&mut sink), Turn::Processed));
    assert!(matches!(cell.turn(&mut sink), Turn::Stopped));
    assert_eq!(cell.phase(), Phase::Terminated);
    assert_eq!(cell.teardowns(), 1);
    assert!(cell.control(ActorServiceMessage::Stop).is_ok());
    assert!(matches!(cell.turn(&mut sink), Turn::Done));
    assert_eq!(cell.teardowns(), 1);
    assert!(sink.handle_errors().is_empty());
}

#[test]
fn failing_stop_is_reported_as_shutdown() {
    let mut sink = ErrorHandler::new();
    let mut cell = spawn_server(Recorder::new(), &mut sink).ok().unwrap();
    cell.send(13).unwrap();
    cell.control(ActorServiceMessage::Stop).unwrap();
    assert_eq!(cell.run(&mut sink), 1);
    assert_eq!(cell.phase(), Phase::Terminated);
    let records = sink.handle_errors();
    assert_eq!(records.len(), 1);
    assert_eq!((records[0].kind(), records[0].message().as_str()), (ErrorKind::Shutdown, "unclean"));
}

#[test]
fn start_on_a_running_actor_does_nothing() {
    let mut sink = ErrorHandler::new();
    let mut cell = spawn_server(Recorder::new(), &mut sink).ok().unwrap();
    assert!(cell.control(ActorServiceMessage::Start).is_ok());
    assert!(cell.control(ActorServiceMessage::Start).is_ok());
    assert_eq!(cell.phase(), Phase::Running);
    assert_eq!(cell.in_flight(), 0);
    assert!(cell.send(1).is_ok());
}

#[test]
fn full_mailbox_refuses_the_thirty_third_message() {
    let mut sink = ErrorHandler::new();
    let mut cell = spawn_server(Recorder::new(), &mut sink).ok().unwrap();
    for i in 0..32 {
        assert!(cell.send(i).is_ok());
    }
    let refused = cell.send(32).unwrap_err();
    assert_eq!((refused.kind(), refused.message().as_str()), (ErrorKind::Channel, "Full"));
    assert_eq!(cell.in_flight(), 32);
}

#[test]
fn echo_actor_takes_everything() {
    let mut sink = ErrorHandler::new();
    let mut cell = spawn_server(EchoActor, &mut sink).ok().unwrap();
    cell.send("Hello World".to_string()).unwrap();
    assert_eq!(cell.run(&mut sink), 1);
    assert_eq!(EchoActor::echo("Hello World"), "[Echo] Hello World");
}

#[test]
fn grace_period_decides_between_wait_and_abort() {
    assert_eq!(after_stop(true, 100, 60), Teardown::Done);
    assert_eq!(after_stop(false, 59, 60), Teardown::Wait);
    assert_eq!(after_stop(false, 60, 60), Teardown::Abort);
    assert_eq!(after_stop(false, 0, 0), Teardown::Abort);
}

#[test]
fn fan_out_gives_each_subscriber_one_copy_in_emit_order() {
    let mut subscribers: Vec<Mailbox<String>> = vec![Mailbox::new(4), Mailbox::new(1)];
    let first = fan_out(&"a".to_string(), &mut subscribers);
    assert_eq!((first.delivered, first.dropped), (2, 0));
    let second = fan_out(&"b".to_string(), &mut subscribers);
    assert_eq!((second.delivered, second.dropped), (1, 1));
    assert!(matches!(subscribers[0].try_recv(), Delivery::Message(ref m) if m == "a"));
    assert!(matches!(subscribers[0].try_recv(), Delivery::Message(ref m) if m == "b"));
    assert!(matches!(subscribers[0].try_recv(), Delivery::Empty));
    assert!(matches!(subscribers[1].try_recv(), Delivery::Message(ref m) if m == "a"));
    assert!(matches!(subscribers[1].try_recv(), Delivery::Empty));
}

#[test]
fn stale_subscribers_are_pruned_before_the_next_send() {
    let mut subscribers: Vec<Mailbox<u8>> = vec![Mailbox::new(2), Mailbox::new(3), Mailbox::new(4)];
    subscribers[1].close();
    let report = publish(&5, &mut subscribers);
    assert_eq!((report.delivered, report.dropped), (2, 0));
    assert_eq!(subscribers.len(), 2);
    assert_eq!(subscribers[0].capacity(), 2);
    assert_eq!(subscribers[1].capacity(), 4);
    subscribers[0].close();
    subscribers[1].close();
    assert_eq!(prune(&mut subscribers), 2);
    assert!(subscribers.is_empty());
    let report = publish(&6, &mut subscribers);
    assert_eq!((report.delivered, report.dropped), (0, 0));
}

#[test]
fn closed_channel_is_logged_at_info() {
    assert_eq!(severity(&ActorError::closed()), Severity::Info);
    assert_eq!(severity(&ActorError::full()), Severity::Error);
    assert_eq!(severity(&ActorError::ChannelError("closed".to_string())), Severity::Error);
    assert_eq!(severity(&ActorError::RuntimeError("Closed".to_string())), Severity::Error);
    assert_eq!(severity(&ActorError::StartupError(String::new())), Severity::Error);
}

#[test]
fn fan_out_counts_those_that_took_the_message() {
    let mut subscribers: Vec<Mailbox<u8>> = vec![Mailbox::new(1), Mailbox::new(1), Mailbox::new(2)];
    subscribers[0].try_send(0).ok().unwrap();
    subscribers[1].close();
    let report = fan_out(&7, &mut subscribers);
    assert_eq!((report.delivered, report.dropped), (1, 2));
    assert_eq!(subscribers.len(), 3);
    assert_eq!(subscribers[0].len(), 1);
    assert_eq!(subscribers[2].len(), 1);
    let empty: &mut Vec<Mailbox<u8>> = &mut Vec::new();
    let report = fan_out(&7, empty);
    assert_eq!((report.delivered, report.dropped), (0, 0));
}

#[test]
fn dropping_every_handle_closes_the_mailbox() {
    let mut mailbox: Mailbox<u8> = Mailbox::new(2);
    assert_eq!(mailbox.handles(), 1);
    assert!(mailbox.attach());
    assert!(mailbox.attach());
    assert_eq!(mailbox.handles(), 3);
    mailbox.try_send(1).ok().unwrap();
    mailbox.detach();
    mailbox.detach();
    assert!(!mailbox.is_closed());
    mailbox.detach();
    assert!(mailbox.is_closed());
    assert_eq!(mailbox.handles(), 0);
    mailbox.detach();
    assert_eq!(mailbox.handles(), 0);
    assert!(matches!(mailbox.try_send(2), Err(TrySendError::Closed(2))));
    assert!(matches!(mailbox.try_recv(), Delivery::Message(1)));
    assert!(matches!(mailbox.try_recv(), Delivery::Closed));
}

#[test]
fn closed_mailbox_is_worked_off_before_the_actor_stops() {
    let mut sink = ErrorHandler::new();
    let mut cell = spawn_server(Recorder::new(), &mut sink).ok().unwrap();
    for message in [1, 7, 2] {
        cell.send(message).unwrap();
    }
    cell.control(ActorServiceMessage::Stop).unwrap();
    assert_eq!(cell.in_flight(), 3);
    assert_eq!(cell.run(&mut sink), 3);
    assert_eq!(cell.in_flight(), 0);
    assert_eq!(cell.phase(), Phase::Terminated);
    assert_eq!(cell.teardowns(), 1);
    let records = sink.handle_errors();
    assert_eq!(records.len(), 1);
    assert_eq!(records[0].message(), "seven");
    assert_eq!(cell.run(&mut sink), 0);
    assert_eq!(cell.teardowns(), 1);
}

#[test]
fn run_leaves_what_follows_a_shutdown_error() {
    let mut sink = ErrorHandler::new();
    let mut cell = spawn_server(Recorder::new(), &mut sink).ok().unwrap();
    for message in [9, 1, 2] {
        cell.send(message).unwrap();
    }
    assert_eq!(cell.run(&mut sink), 1);
    assert_eq!(cell.phase(), Phase::Terminated);
    assert_eq!(cell.in_flight(), 2);
    assert_eq!(cell.run(&mut sink), 0);
    assert_eq!(cell.in_flight(), 2);
}

#[test]
fn start_that_succeeded_gives_a_running_actor() {
    let mut sink = ErrorHandler::new();
    let cell = settle_start::<u32, Recorder>(Recorder::new(), Ok(()), &mut sink).ok().unwrap();
    assert_eq!(cell.phase(), Phase::Running);
    assert_eq!(cell.in_flight(), 0);
    assert_eq!(cell.teardowns(), 0);
    assert!(sink.handle_errors().is_empty());
}

#[test]
fn start_that_failed_is_reported_as_a_startup_error() {
    for failure in [
        ActorError::RuntimeError("no socket".to_string()),
        ActorError::StartupError("no socket".to_string()),
        ActorError::ShutdownError("no socket".to_string()),
    ] {
        let mut sink = ErrorHandler::new();
        let spawned = settle_start::<u32, Recorder>(Recorder::new(), Err(failure), &mut sink);
        let error = spawned.err().unwrap();
        assert!(matches!(error, ActorError::StartupError(ref m) if m == "no socket"));
        let records = sink.handle_errors();
        assert_eq!(records.len(), 1);
        assert!(matches!(records[0], ActorError::StartupError(ref m) if m == "no socket"));
    }
}

#[test]
fn result_of_process_decides_what_the_loop_does() {
    let mut sink = ErrorHandler::new();
    let mut cell = spawn_server(Recorder::new(), &mut sink).ok().unwrap();
    cell.send(1).unwrap();
    assert_eq!(cell.settle_process(Ok(()), &mut sink), Directive::Receive);
    assert!(sink.handle_errors().is_empty());
    assert_eq!(
        cell.settle_process(Err(ActorError::RuntimeError("seven".to_string())), &mut sink),
        Directive::Receive
    );
    assert_eq!(
        cell.settle_process(Err(ActorError::StartupError("eight".to_string())), &mut sink),
        Directive::Receive
    );
    assert_eq!(
        cell.settle_process(Err(ActorError::ChannelError("Full".to_string())), &mut sink),
        Directive::Receive
    );
    assert_eq!(cell.phase(), Phase::Running);
    assert_eq!(
        cell.settle_process(Err(ActorError::ShutdownError("nine".to_string())), &mut sink),
        Directive::Stop
    );
    assert_eq!(cell.phase(), Phase::Stopping);
    assert_eq!(cell.in_flight(), 1);
    assert!(cell.send(2).is_err());
    assert!(matches!(cell.turn(&mut sink), Turn::Stopped));
    assert_eq!(cell.phase(), Phase::Terminated);
    assert_eq!(cell.teardowns(), 1);
    let records = sink.handle_errors();
    assert_eq!(records.len(), 4);
    assert!(matches!(records[0], ActorError::RuntimeError(ref m) if m == "seven"));
    assert!(matches!(records[1], ActorError::RuntimeError(ref m) if m == "eight"));
    assert!(matches!(records[2], ActorError::ChannelError(ref m) if m == "Full"));
    assert!(matches!(records[3], ActorError::ShutdownError(ref m) if m == "nine"));
}

#[test]
fn result_of_stop_ends_the_actor_either_way() {
    let mut sink = ErrorHandler::new();
    let mut cell = spawn_server(Recorder::new(), &mut sink).ok().unwrap();
    cell.send(1).unwrap();
    cell.settle_stop(Ok(()), &mut sink);
    assert_eq!(cell.phase(), Phase::Terminated);
    assert_eq!(cell.teardowns(), 1);
    assert_eq!(cell.in_flight(), 1);
    assert!(cell.send(2).is_err());
    assert!(sink.handle_errors().is_empty());

    let mut cell = spawn_server(Recorder::new(), &mut sink).ok().unwrap();
    cell.settle_stop(Err(ActorError::RuntimeError("unclean".to_string())), &mut sink);
    assert_eq!(cell.phase(), Phase::Terminated);
    assert_eq!(cell.teardowns(), 1);
    let records = sink.handle_errors();
    assert_eq!(records.len(), 1);
    assert!(matches!(records[0], ActorError::ShutdownError(ref m) if m == "unclean"));
}

#[test]
fn every_message_is_processed_though_one_fails() {
    let mut sink = ErrorHandler::new();
    let mut cell = spawn_server(Recorder::new(), &mut sink).ok().unwrap();
    for message in [1, 2, 7, 3, 4] {
        cell.send(message).unwrap();
    }
    assert!(matches!(cell.turn(&mut sink), Turn::Processed));
    assert!(matches!(cell.turn(&mut sink), Turn::Processed));
    assert!(sink.handle_errors().is_empty());
    assert!(matches!(cell.turn(&mut sink), Turn::Processed));
    let records = sink.handle_errors();
    assert_eq!(records.len(), 1);
    assert!(matches!(records[0], ActorError::RuntimeError(ref m) if m == "seven"));
    assert_eq!(cell.in_flight(), 2);
    assert_eq!(cell.run(&mut sink), 2);
    assert_eq!(cell.phase(), Phase::Running);
    assert!(sink.handle_errors().is_empty());
}
