use parallax_kernel::error::{ActorError, ErrorKind, ProtocolKind, SqlError};
use parallax_kernel::mailbox::{Delivery, Mailbox};
use parallax_kernel::runtime::{ActorServiceMessage, ErrorHandler};
use parallax_kernel::sql::{query_error, SqLiteQueryActor};

#[test]
fn tests_sqlite_smoke() {
    let mut actor: SqLiteQueryActor<Vec<String>> =
        SqLiteQueryActor::new("TaskQuerySqliteWorker".to_string(), 1000);
    assert_eq!(actor.key(), "TaskQuerySqliteWorker");
    assert_eq!(actor.interval_ms(), 1000);
    actor.subscribe(Mailbox::new(32));
    let row = "Task ID: 1, Description: Sample Task, Completed: false".to_string();
    for _ in 0..2 {
        let report = actor.on_rows(&vec![row.clone()]);
        assert_eq!((report.delivered, report.dropped), (1, 0));
    }
    let mut received = 0;
    while let Delivery::Message(rows) = actor.receive(0) {
        assert_eq!(rows.len(), 1);
        assert!(rows[0].contains("Sample Task"));
        received += 1;
    }
    assert!(received >= 2);
}

#[test]
fn row_count_grows_with_the_table() {
    let mut actor: SqLiteQueryActor<Vec<String>> = SqLiteQueryActor::new("poll".to_string(), 1);
    actor.subscribe(Mailbox::new(4));
    actor.subscribe(Mailbox::new(4));
    actor.on_rows(&vec!["Sample Task".to_string()]);
    actor.on_rows(&vec!["Sample Task".to_string(), "Sample Task2".to_string()]);
    for i in 0..2 {
        let first = match actor.receive(i) {
            Delivery::Message(rows) => rows.len(),
            _ => panic!("the first poll is missing"),
        };
        let second = match actor.receive(i) {
            Delivery::Message(rows) => rows.len(),
            _ => panic!("the second poll is missing"),
        };
        assert!(second > first);
        assert!(matches!(actor.receive(i), Delivery::Empty));
    }
}

#[test]
fn full_subscriber_drops_and_closed_subscriber_is_pruned() {
    let mut actor: SqLiteQueryActor<u8> = SqLiteQueryActor::new("poll".to_string(), 1);
    let mut closed = Mailbox::new(1);
    closed.close();
    actor.subscribe(Mailbox::new(1));
    actor.subscribe(closed);
    assert_eq!(actor.subscriber_count(), 2);
    let report = actor.on_rows(&1);
    assert_eq!((report.delivered, report.dropped), (1, 0));
    assert_eq!(actor.subscriber_count(), 1);
    let report = actor.on_rows(&2);
    assert_eq!((report.delivered, report.dropped), (0, 1));
    assert!(matches!(actor.receive(0), Delivery::Message(1)));
    assert!(matches!(actor.receive(0), Delivery::Empty));
}

#[test]
fn stopped_poller_hands_out_nothing() {
    let mut actor: SqLiteQueryActor<u8> = SqLiteQueryActor::new("poll".to_string(), 1);
    actor.subscribe(Mailbox::new(1));
    assert!(actor.handle(ActorServiceMessage::Start).is_ok());
    assert_eq!(actor.on_rows(&1).delivered, 1);
    assert!(actor.handle(ActorServiceMessage::Stop).is_ok());
    assert!(actor.handle(ActorServiceMessage::Stop).is_ok());
    let report = actor.on_rows(&2);
    assert_eq!((report.delivered, report.dropped), (0, 0));
}

#[test]
fn query_errors_go_to_the_sink() {
    let actor: SqLiteQueryActor<u8> = SqLiteQueryActor::new("poll".to_string(), 1);
    let mut sink = ErrorHandler::new();
    assert!(actor.on_query_error(SqlError("no such table: tasks".to_string()), &mut sink));
    let records = sink.handle_errors();
    assert_eq!(records.len(), 1);
    assert_eq!(records[0].kind(), ErrorKind::Protocol);
    assert!(
        matches!(&records[0], ActorError::ProtocolError(ProtocolKind::Sql, m) if m == "SqLiteQueryWorker error: no such table: tasks")
    );
    assert!(
        matches!(query_error(SqlError(String::new())), ActorError::ProtocolError(ProtocolKind::Sql, ref m) if m == "SqLiteQueryWorker error: ")
    );
}

#[test]
fn subscriber_marked_as_stale_is_taken_off_with_the_next_poll() {
    let mut actor: SqLiteQueryActor<u8> = SqLiteQueryActor::new("poll".to_string(), 1);
    actor.subscribe(Mailbox::new(2));
    actor.subscribe(Mailbox::new(3));
    actor.on_rows(&1);
    actor.close_subscriber(0);
    assert_eq!(actor.subscriber_count(), 2);
    assert!(matches!(actor.receive(0), Delivery::Message(1)));
    assert!(matches!(actor.receive(0), Delivery::Closed));
    let report = actor.on_rows(&2);
    assert_eq!((report.delivered, report.dropped), (1, 0));
    assert_eq!(actor.subscriber_count(), 1);
    assert!(matches!(actor.receive(0), Delivery::Message(1)));
    assert!(matches!(actor.receive(0), Delivery::Message(2)));
}

#[derive(Clone, Debug, PartialEq)]
struct Tasks {
    ids: Vec<u32>,
}

impl From<Vec<u32>> for Tasks {
    fn from(rows: Vec<u32>) -> Self {
        Tasks { ids: rows }
    }
}

#[test]
fn message_of_a_poll_is_made_of_its_rows() {
    let mut actor: SqLiteQueryActor<Tasks> = SqLiteQueryActor::new("poll".to_string(), 1);
    actor.subscribe(Mailbox::new(8));
    actor.subscribe(Mailbox::new(8));
    let mut table = vec![1];
    for next in 2..=4 {
        let report = actor.on_batch(table.clone());
        assert_eq!((report.delivered, report.dropped), (2, 0));
        table.push(next);
    }
    for i in 0..2 {
        let mut counts = Vec::new();
        while let Delivery::Message(tasks) = actor.receive(i) {
            counts.push(tasks.ids.len());
            assert_eq!(tasks.ids, (1..=tasks.ids.len() as u32).collect::<Vec<u32>>());
        }
        assert_eq!(counts, vec![1, 2, 3]);
    }
}

#[test]
fn stopped_poller_hands_out_no_batch() {
    let mut actor: SqLiteQueryActor<Tasks> = SqLiteQueryActor::new("poll".to_string(), 1);
    actor.subscribe(Mailbox::new(8));
    actor.handle(ActorServiceMessage::Stop).unwrap();
    let report = actor.on_batch(vec![1, 2]);
    assert_eq!((report.delivered, report.dropped), (0, 0));
    assert!(matches!(actor.receive(0), Delivery::Empty));
}

#[test]
fn full_subscriber_misses_a_poll_but_keeps_the_order() {
    let mut actor: SqLiteQueryActor<u32> = SqLiteQueryActor::new("poll".to_string(), 1);
    actor.subscribe(Mailbox::new(2));
    for message in 1..=4 {
        actor.on_rows(&message);
    }
    assert!(matches!(actor.receive(0), Delivery::Message(1)));
    actor.on_rows(&5);
    assert!(matches!(actor.receive(0), Delivery::Message(2)));
    assert!(matches!(actor.receive(0), Delivery::Message(5)));
    assert!(matches!(actor.receive(0), Delivery::Empty));
}
