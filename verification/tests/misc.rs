use parallax_kernel::azure::{connect_fault, ConnectStage};
use parallax_kernel::logger::{default_log_filter, log_line, target_name};
use parallax_kernel::opcua::{Namespace, OpcuaAction, OpcuaServer, ServerStructure};
use parallax_kernel::runtime::ActorServiceMessage;
use parallax_kernel::ssh::{SshAction, SshServer, AUTH_REJECTION_SECS};
use parallax_kernel::tags::{AzureServer, Bay, Cell, DBListener, HttpServer, Id, OpcUaServer, ProcessListener, SshtServer};
use parallax_kernel::vis2d::{Pos2d, Pos2dElems, Shade, GRID};

#[test]
fn target_is_cut_behind_its_last_separator() {
    for target in ["a::b::c", "kernel", "", "::", "a::", "::a", "a:::b", "a::::b", ":", "a:b::c:d", ":::"] {
        let expected = target.split("::").last().unwrap_or(target);
        assert_eq!(target_name(target), expected, "{:?}", target);
    }
    assert_eq!(target_name("parallax_kernel::servers::http"), "http");
}

#[test]
fn log_line_has_time_level_and_target() {
    assert_eq!(
        log_line("12:00:00.123", "INFO", "parallax_kernel::servers::http", "Starting HTTP server"),
        "[12:00:00.123 I http] Starting HTTP server"
    );
    assert_eq!(log_line("t", "ERROR", "main", ""), "[t E main] ");
    assert_eq!(log_line("t", "", "a::b", "m"), "[t I b] m");
    assert_eq!(default_log_filter(), "info");
}

#[test]
fn floor_draws_the_last_machine_of_a_cell() {
    let floor = Pos2dElems::new(vec![
        Pos2d::red_with_label(1, 1, "W01"),
        Pos2d::red_with_label(1, 2, "W02"),
        Pos2d::red_with_label(1, 2, "W04"),
        Pos2d::red_with_label(2, 3, "W05"),
        Pos2d::green_with_label(3, 3, "Cutting Center"),
        Pos2d::green(4, 3),
    ]);
    assert_eq!(floor.machine_at(1, 1), Some(0));
    assert_eq!(floor.machine_at(1, 2), Some(2));
    assert_eq!(floor.machine_at(4, 3), Some(5));
    assert_eq!(floor.machine_at(3, 4), None);
    assert_eq!(floor.machine_at(0, 0), None);
    assert_eq!(floor.items[2].label.as_deref(), Some("W04"));
    assert_eq!(floor.items[4].color, Shade::Green);
    assert_eq!(Pos2dElems::empty().machine_at(1, 1), None);
    assert_eq!(GRID, 20);
}

#[test]
fn machines_come_in_three_colours() {
    let plain = [Pos2d::blue(1, 2), Pos2d::green(1, 2), Pos2d::red(1, 2)];
    let labelled = [
        Pos2d::blue_with_label(1, 2, "b"),
        Pos2d::green_with_label(1, 2, "g"),
        Pos2d::red_with_label(1, 2, "r"),
    ];
    let shades = [Shade::Blue, Shade::Green, Shade::Red];
    for i in 0..3 {
        assert_eq!((plain[i].x, plain[i].y, plain[i].color), (1, 2, shades[i]));
        assert_eq!(plain[i].label, None);
        assert_eq!(labelled[i].color, shades[i]);
        assert!(labelled[i].label.is_some());
    }
    let custom = Pos2d::new_with_label(7, 8, Shade::Blue, "x");
    assert_eq!((custom.x, custom.y, custom.label.as_deref()), (7, 8, Some("x")));
    assert_eq!(Pos2d::new(7, 8, Shade::Red).label, None);
}

#[test]
fn markers_and_elements_exist() {
    let _ = (AzureServer, DBListener, HttpServer, OpcUaServer, SshtServer, ProcessListener, Cell);
    let bay = Bay { id: Id("bay-1".to_string()), capacity: 2, items: vec![(Id("part".to_string()), 1)] };
    assert_eq!(bay.id.0, "bay-1");
    assert_eq!(bay.capacity, 2);
    assert_eq!(bay.items[0].1, 1);
}

#[test]
fn connection_failures_name_their_stage() {
    assert_eq!(connect_fault(ConnectStage::Connection, "refused"), "Connection failed: refused");
    assert_eq!(connect_fault(ConnectStage::Session, "x"), "Session failed: x");
    assert_eq!(connect_fault(ConnectStage::Link, "y"), "Sender attach failed: y");
    assert_eq!(connect_fault(ConnectStage::Reconnect, ""), "Reconnection failed: ");
}

#[test]
fn servers_answer_start_and_stop_once() {
    let mut ssh = SshServer::default();
    assert_eq!(ssh.handle(ActorServiceMessage::Stop), SshAction::Nothing);
    assert_eq!(ssh.handle(ActorServiceMessage::Start), SshAction::Listen);
    assert_eq!(ssh.handle(ActorServiceMessage::Start), SshAction::Nothing);
    assert_eq!(ssh.handle(ActorServiceMessage::Stop), SshAction::Close);
    assert_eq!(ssh.handle(ActorServiceMessage::Stop), SshAction::Nothing);
    assert_eq!(AUTH_REJECTION_SECS, 1);
    let structure = ServerStructure::new(vec![Namespace(1, "n".to_string())], Vec::new());
    let mut opcua = OpcuaServer::new("o", structure).unwrap();
    assert_eq!(opcua.handle(ActorServiceMessage::Stop), OpcuaAction::Nothing);
    assert_eq!(opcua.handle(ActorServiceMessage::Start), OpcuaAction::Serve);
    assert_eq!(opcua.handle(ActorServiceMessage::Start), OpcuaAction::Nothing);
    assert_eq!(opcua.handle(ActorServiceMessage::Stop), OpcuaAction::Abort);
}
