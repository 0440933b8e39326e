use parallax_kernel::error::{
    ActorError, ErrorKind, KernelError, ProtocolKind, ServerError, SqlError, SshError,
};

#[test]
fn actor_error_from_text_is_a_runtime_error() {
    let error = ActorError::from("boom".to_string());
    assert!(matches!(error, ActorError::RuntimeError(ref m) if m == "boom"));
    assert_eq!(error.kind(), ErrorKind::Runtime);
}

#[test]
fn each_actor_error_has_its_class() {
    let cases = vec![
        (ActorError::StartupError("a".into()), ErrorKind::Startup),
        (ActorError::RuntimeError("b".into()), ErrorKind::Runtime),
        (ActorError::ShutdownError("c".into()), ErrorKind::Shutdown),
        (ActorError::ChannelError("d".into()), ErrorKind::Channel),
        (ActorError::ProtocolError(ProtocolKind::Amqp, "e".into()), ErrorKind::Protocol),
        (ActorError::SystemError("f".into()), ErrorKind::System),
    ];
    for (error, kind) in cases {
        assert_eq!(error.kind(), kind);
        let copy = error.duplicate();
        assert_eq!(copy.kind(), kind);
        assert_eq!(copy.message(), error.message());
    }
}

#[test]
fn startup_error_counts_as_runtime_while_running() {
    let error = ActorError::StartupError("late".into()).while_running();
    assert!(matches!(error, ActorError::RuntimeError(ref m) if m == "late"));
    let error = ActorError::ShutdownError("bye".into()).while_running();
    assert!(matches!(error, ActorError::ShutdownError(ref m) if m == "bye"));
}

#[test]
fn channel_errors_name_their_cause() {
    assert!(matches!(ActorError::closed(), ActorError::ChannelError(ref m) if m == "Closed"));
    assert!(matches!(ActorError::full(), ActorError::ChannelError(ref m) if m == "Full"));
}

#[test]
fn kernel_error_client_wraps_a_client_error() {
    let error = KernelError::client("bad request");
    assert!(
        matches!(error, KernelError::ServerError(ServerError::ClientError(ref m)) if m == "bad request")
    );
    assert!(matches!(KernelError::system("io"), KernelError::SystemError(ref m) if m == "io"));
    assert!(matches!(KernelError::channel("gone"), KernelError::ChannelError(ref m) if m == "gone"));
}

#[test]
fn kernel_error_from_unit_is_an_empty_client_error() {
    let error = KernelError::from(());
    assert!(
        matches!(error, KernelError::ServerError(ServerError::ClientError(ref m)) if m == "Empty error")
    );
}

#[test]
fn server_error_converts_into_kernel_and_actor_errors() {
    let kernel = KernelError::from(ServerError::StartError("bind".into(), "http".into()));
    assert!(matches!(kernel, KernelError::ServerError(ServerError::StartError(_, _))));
    assert!(matches!(ActorError::from(kernel), ActorError::StartupError(ref m) if m == "bind"));
    let cases = vec![
        (KernelError::ServerError(ServerError::RuntimeError("r".into())), ErrorKind::Runtime),
        (KernelError::ServerError(ServerError::StopError("s".into(), "x".into())), ErrorKind::Shutdown),
        (KernelError::ServerError(ServerError::ClientError("c".into())), ErrorKind::Runtime),
        (KernelError::ChannelError("ch".into()), ErrorKind::Channel),
        (KernelError::SystemError("sy".into()), ErrorKind::System),
    ];
    for (kernel, kind) in cases {
        assert_eq!(ActorError::from(kernel).kind(), kind);
    }
}

#[test]
fn endpoint_errors_become_runtime_errors() {
    let ssh = SshError("no key".into());
    assert_eq!(ssh.message(), "no key");
    assert!(matches!(ActorError::from(ssh), ActorError::RuntimeError(ref m) if m == "no key"));
    let sql = SqlError("no table".into());
    assert!(matches!(ActorError::from(sql), ActorError::RuntimeError(ref m) if m == "no table"));
}
