use parallax_kernel::error::{ActorError, KernelError, ServerError};
use parallax_kernel::opcua::{
    check_registration, endpoint_url, pki_dir, run_plan, startup_check, try_to_build_server,
    AddressSpaceOp, DataTypeId, Identifier, LocalizedText, Namespace, Node, NodeDelegate, NodeId,
    OpAnswer, OpOutcome, OpcuaServer, QualifiedName, ServerStructure, UpdateValueMessage, Variant,
};

fn folder(ns: u16, id: u32, name: &str, children: Vec<Node>) -> Node {
    Node::folder(NodeId::new(ns, id), QualifiedName::new(ns, name), LocalizedText::plain(name), children)
}

fn object(ns: u16, id: u32, name: &str, children: Vec<Node>) -> Node {
    Node::object(NodeId::new(ns, id), QualifiedName::new(ns, name), LocalizedText::plain(name), children)
}

fn variable(ns: u16, id: u32, name: &str, value: Variant) -> Node {
    Node::variable(
        NodeId::new(ns, id),
        QualifiedName::new(ns, name),
        LocalizedText::plain(name),
        DataTypeId::UInt16,
        1,
        value,
    )
}

fn smoke_structure() -> ServerStructure {
    let tree = folder(
        1,
        11,
        "Folder",
        vec![folder(
            1,
            2,
            "SubFolder",
            vec![object(1, 3, "Object", vec![variable(1, 4, "Variable", Variant::UInt16(1))])],
        )],
    );
    ServerStructure::new(vec![Namespace(1, "namespace1".to_string())], vec![tree])
}

fn subject(op: &AddressSpaceOp) -> String {
    match op {
        AddressSpaceOp::RegisterNamespace { uri, .. } => uri.clone(),
        AddressSpaceOp::AddFolder { node_id, .. }
        | AddressSpaceOp::AddObject { node_id, .. }
        | AddressSpaceOp::AddVariable { node_id, .. }
        | AddressSpaceOp::AddProperty { node_id, .. } => node_id.render(),
        AddressSpaceOp::AddReference { source, .. } => source.render(),
    }
}

fn client_message(result: Result<(), KernelError>) -> String {
    match result {
        Err(KernelError::ServerError(ServerError::ClientError(m))) => m,
        other => panic!("expected a client error, got {:?}", other),
    }
}

#[test]
fn smoke_opcua() {
    let structure = smoke_structure();
    let plan = structure.process_server().unwrap();
    assert_eq!(plan.len(), 5);
    assert!(
        matches!(&plan[0], AddressSpaceOp::RegisterNamespace { index: 1, uri } if uri == "namespace1")
    );
    assert!(
        matches!(&plan[1], AddressSpaceOp::AddFolder { node_id, parent, .. } if node_id.render() == "ns=1;i=11" && parent.render() == "i=84")
    );
    assert!(
        matches!(&plan[2], AddressSpaceOp::AddFolder { node_id, parent, .. } if node_id.render() == "ns=1;i=2" && parent.render() == "ns=1;i=11")
    );
    assert!(
        matches!(&plan[3], AddressSpaceOp::AddObject { node_id, organized_by, .. } if node_id.render() == "ns=1;i=3" && organized_by.render() == "ns=1;i=2")
    );
    assert!(matches!(
        &plan[4],
        AddressSpaceOp::AddVariable {
            node_id,
            organized_by,
            value: Variant::UInt16(1),
            data_type: DataTypeId::UInt16,
            value_rank: 1,
            ..
        } if node_id.render() == "ns=1;i=4" && organized_by.render() == "ns=1;i=3"
    ));
}

#[test]
fn node_ids_render_with_their_namespace() {
    assert_eq!(NodeId::new(1, 4).render(), "ns=1;i=4");
    assert_eq!(NodeId::new(0, 84).render(), "i=84");
    assert_eq!(NodeId::new(65535, 4294967295).render(), "ns=65535;i=4294967295");
    assert_eq!(NodeId::named(2, "Pump").render(), "ns=2;s=Pump");
    assert_eq!(NodeId::named(0, "").render(), "s=");
    assert_eq!(NodeId::root_folder_id().render(), "i=84");
    assert_eq!(NodeId::objects_folder_id().render(), "i=85");
    assert!(matches!(NodeId::new(3, 9).duplicate(), NodeId { namespace: 3, identifier: Identifier::Numeric(9) }));
}

#[test]
fn namespace_zero_is_reserved() {
    let structure = ServerStructure::new(
        vec![Namespace(2, "a".to_string()), Namespace(0, "b".to_string()), Namespace(3, String::new())],
        Vec::new(),
    );
    assert_eq!(client_message(structure.validate()), "Namespace index cannot be 0");
    assert_eq!(
        client_message(structure.process_server().map(|_| ())),
        "Namespace index cannot be 0"
    );
}

#[test]
fn namespace_uri_must_not_be_empty() {
    let structure = ServerStructure::new(
        vec![Namespace(2, "a".to_string()), Namespace(3, String::new()), Namespace(0, "b".to_string())],
        Vec::new(),
    );
    assert_eq!(client_message(structure.validate()), "Namespace URI  cannot be empty");
    let both = ServerStructure::new(vec![Namespace(0, String::new())], Vec::new());
    assert_eq!(client_message(both.validate()), "Namespace index cannot be 0");
}

#[test]
fn namespaces_are_registered_in_ascending_order() {
    let structure = ServerStructure::new(
        vec![
            Namespace(3, "c".to_string()),
            Namespace(1, "a".to_string()),
            Namespace(2, "b1".to_string()),
            Namespace(2, "b2".to_string()),
            Namespace(1, "a2".to_string()),
        ],
        Vec::new(),
    );
    let sorted: Vec<(u16, String)> =
        structure.sorted_namespaces().into_iter().map(|n| (n.0, n.1)).collect();
    assert_eq!(
        sorted,
        vec![
            (1, "a".to_string()),
            (1, "a2".to_string()),
            (2, "b1".to_string()),
            (2, "b2".to_string()),
            (3, "c".to_string()),
        ]
    );
    let plan = structure.process_server().unwrap();
    let uris: Vec<String> = plan.iter().map(subject).collect();
    assert_eq!(uris, vec!["a", "a2", "b1", "b2", "c"]);
}

#[test]
fn empty_structure_has_an_empty_plan() {
    assert!(ServerStructure::default().process_server().unwrap().is_empty());
    assert!(ServerStructure::new(Vec::new(), Vec::new()).validate().is_ok());
}

#[test]
fn nodes_are_planned_parent_first_and_in_order() {
    let mut root = folder(1, 1, "root", vec![object(1, 2, "a", vec![variable(1, 3, "a1", Variant::Empty)])]);
    root.add_child(object(1, 4, "b", Vec::new()));
    let second = Node::property(
        NodeId::new(1, 5),
        QualifiedName::new(1, "p"),
        LocalizedText::new("en", "p"),
        DataTypeId::String,
        -1,
        Variant::String("x".to_string()),
    );
    let structure = ServerStructure::new(Vec::new(), vec![root, second]);
    let plan = structure.process_server().unwrap();
    let ids: Vec<String> = plan.iter().map(subject).collect();
    assert_eq!(ids, vec!["ns=1;i=1", "ns=1;i=2", "ns=1;i=3", "ns=1;i=4", "ns=1;i=5"]);
    assert!(
        matches!(&plan[3], AddressSpaceOp::AddObject { organized_by, .. } if organized_by.render() == "ns=1;i=1")
    );
    assert!(matches!(
        &plan[4],
        AddressSpaceOp::AddProperty { property_of, value: Variant::String(v), value_rank: -1, .. }
            if property_of.render() == "i=84" && v == "x"
    ));
}

#[test]
fn roots_hang_below_the_standard_folders() {
    let mut ops = Vec::new();
    Node::process(&object(1, 1, "o", Vec::new()), None, &mut ops);
    Node::process(&variable(1, 2, "v", Variant::Boolean(true)), None, &mut ops);
    Node::process(&object(1, 3, "o2", Vec::new()), Some(&NodeId::new(1, 1)), &mut ops);
    assert!(matches!(&ops[0], AddressSpaceOp::AddObject { organized_by, .. } if organized_by.render() == "i=85"));
    assert!(matches!(&ops[1], AddressSpaceOp::AddVariable { organized_by, .. } if organized_by.render() == "i=84"));
    assert!(matches!(&ops[2], AddressSpaceOp::AddObject { organized_by, .. } if organized_by.render() == "ns=1;i=1"));
}

#[test]
fn reference_is_planned_from_source_to_target() {
    let node = Node {
        node_id: NodeId::new(1, 7),
        browse_name: QualifiedName::new(1, "r"),
        display_name: LocalizedText::plain("r"),
        delegate: NodeDelegate::Reference { target: NodeId::new(1, 8), reference_type: NodeId::new(0, 35) },
        children: Vec::new(),
    };
    let mut ops = Vec::new();
    Node::process(&node, Some(&NodeId::new(1, 1)), &mut ops);
    assert_eq!(ops.len(), 1);
    assert!(matches!(
        &ops[0],
        AddressSpaceOp::AddReference { source, target, reference_type }
            if source.render() == "ns=1;i=7" && target.render() == "ns=1;i=8" && reference_type.render() == "i=35"
    ));
    assert!(ops[0].check(OpOutcome::Rejected).is_ok());
}

#[test]
fn registration_must_answer_with_the_index_asked_for() {
    assert!(check_registration(1, Some(1)).is_ok());
    assert_eq!(client_message(check_registration(1, Some(2))), "Namespace index mismatch 1 != 2");
    assert_eq!(
        client_message(check_registration(65535, Some(0))),
        "Namespace index mismatch 65535 != 0"
    );
    assert_eq!(client_message(check_registration(1, None)), "Can not register namespace");
}

#[test]
fn rejected_nodes_are_named_in_the_error() {
    let plan = smoke_structure().process_server().unwrap();
    assert!(plan[0].check(OpOutcome::Rejected).is_ok());
    for op in &plan {
        assert!(op.check(OpOutcome::Inserted).is_ok());
    }
    assert_eq!(client_message(plan[1].check(OpOutcome::Rejected)), "Failed to insert folder: ns=1;i=11");
    assert_eq!(client_message(plan[1].check(OpOutcome::Invalid)), "Failed to insert folder: ns=1;i=11");
    assert_eq!(client_message(plan[3].check(OpOutcome::Invalid)), "Invalid object type: ns=1;i=3");
    assert_eq!(client_message(plan[3].check(OpOutcome::Rejected)), "Failed to insert object: ns=1;i=3");
    assert_eq!(client_message(plan[4].check(OpOutcome::Invalid)), "Invalid variable type: ns=1;i=4");
    assert_eq!(
        client_message(plan[4].check(OpOutcome::Rejected)),
        "Failed to insert variable type: ns=1;i=4"
    );
    let mut ops = Vec::new();
    let property = Node::property(
        NodeId::named(2, "p"),
        QualifiedName::new(2, "p"),
        LocalizedText::plain("p"),
        DataTypeId::Int32,
        1,
        Variant::Int32(-5),
    );
    Node::process(&property, None, &mut ops);
    assert_eq!(client_message(ops[0].check(OpOutcome::Invalid)), "Invalid property type: ns=2;s=p");
    assert_eq!(
        client_message(ops[0].check(OpOutcome::Rejected)),
        "Failed to insert property type: ns=2;s=p"
    );
}

#[test]
fn opcua_update() {
    let structure = ServerStructure::new(
        vec![Namespace(1, "namespace1".to_string())],
        vec![variable(1, 4, "Variable", Variant::UInt16(1))],
    );
    let server = OpcuaServer::new("opcua", structure).unwrap();
    assert_eq!(server.key(), "opcua");
    assert_eq!(server.plan().len(), 2);
    let update = UpdateValueMessage { node_id: NodeId::new(1, 4), value: Variant::UInt16(7) };
    assert_eq!(update.node_id.render(), "ns=1;i=4");
    assert!(matches!(update.value, Variant::UInt16(7)));
    assert!(server.update_outcome(true).is_ok());
    assert!(
        matches!(server.update_outcome(false), Err(ActorError::RuntimeError(ref m)) if m == "Failed to update the value")
    );
}

#[test]
fn faulty_structure_is_a_startup_error() {
    let structure = ServerStructure::new(vec![Namespace(0, "x".to_string())], Vec::new());
    assert!(
        matches!(OpcuaServer::new("opcua", structure), Err(ActorError::StartupError(ref m)) if m == "Namespace index cannot be 0")
    );
}

#[test]
fn missing_configuration_is_a_startup_error() {
    assert!(try_to_build_server("opcua", true).is_ok());
    assert!(
        matches!(try_to_build_server("opcua", false), Err(ActorError::StartupError(ref m)) if m == "Failed to load server config opcua")
    );
}

#[test]
fn faults_while_the_server_is_built_are_startup_errors() {
    let plan = smoke_structure().process_server().unwrap();
    assert!(startup_check(&plan[0], OpAnswer::Registered(Some(1))).is_ok());
    assert!(
        matches!(startup_check(&plan[0], OpAnswer::Registered(Some(2))), Err(ActorError::StartupError(ref m)) if m == "Namespace index mismatch 1 != 2")
    );
    assert!(
        matches!(startup_check(&plan[0], OpAnswer::Registered(None)), Err(ActorError::StartupError(ref m)) if m == "Can not register namespace")
    );
    assert!(
        matches!(startup_check(&plan[0], OpAnswer::Node(OpOutcome::Inserted)), Err(ActorError::StartupError(ref m)) if m == "Can not register namespace")
    );
    assert!(startup_check(&plan[1], OpAnswer::Node(OpOutcome::Inserted)).is_ok());
    assert!(
        matches!(startup_check(&plan[1], OpAnswer::Node(OpOutcome::Rejected)), Err(ActorError::StartupError(ref m)) if m == "Failed to insert folder: ns=1;i=11")
    );
    assert!(
        matches!(startup_check(&plan[3], OpAnswer::Registered(Some(1))), Err(ActorError::StartupError(ref m)) if m == "Failed to insert object: ns=1;i=3")
    );
}

#[test]
fn endpoint_is_an_opc_tcp_url() {
    assert_eq!(endpoint_url("127.0.0.1", 4840), "opc.tcp://127.0.0.1:4840");
    assert_eq!(endpoint_url("", 0), "opc.tcp://:0");
    assert_eq!(pki_dir(), "./pki-server");
}

fn answers_without_fault(plan: &[AddressSpaceOp]) -> Vec<OpAnswer> {
    plan.iter()
        .map(|op| match op {
            AddressSpaceOp::RegisterNamespace { index, .. } => OpAnswer::Registered(Some(*index)),
            _ => OpAnswer::Node(OpOutcome::Inserted),
        })
        .collect()
}

#[test]
fn plan_stops_at_its_first_fault() {
    let plan = smoke_structure().process_server().unwrap();
    assert_eq!(plan.len(), 5);
    let good = answers_without_fault(&plan);
    assert!(matches!(run_plan(&plan, &good), Ok(5)));
    assert!(matches!(run_plan(&plan, &good[..3].to_vec()), Ok(3)));
    assert!(matches!(run_plan(&plan, &Vec::new()), Ok(0)));
    assert!(matches!(run_plan(&Vec::new(), &good), Ok(0)));

    let mut answers = good.clone();
    answers[2] = OpAnswer::Node(OpOutcome::Rejected);
    answers[4] = OpAnswer::Node(OpOutcome::Invalid);
    match run_plan(&plan, &answers) {
        Err((at, ActorError::StartupError(message))) => {
            assert_eq!(at, 2);
            assert_eq!(message, "Failed to insert folder: ns=1;i=2");
        }
        other => panic!("expected a fault at the third operation, got {:?}", other),
    }

    let mut answers = good;
    answers[0] = OpAnswer::Registered(Some(7));
    match run_plan(&plan, &answers) {
        Err((at, ActorError::StartupError(message))) => {
            assert_eq!(at, 0);
            assert_eq!(message, "Namespace index mismatch 1 != 7");
        }
        other => panic!("expected a fault at the registration, got {:?}", other),
    }
}

#[test]
fn server_carries_out_no_operation_after_a_fault() {
    let mut server = OpcuaServer::new("opcua", smoke_structure()).unwrap();
    assert!(!server.is_built());
    assert_eq!(subject(server.next_operation().unwrap()), "namespace1");
    assert!(server.record(OpAnswer::Registered(Some(1))).is_ok());
    assert_eq!(subject(server.next_operation().unwrap()), "ns=1;i=11");
    assert!(server.record(OpAnswer::Node(OpOutcome::Inserted)).is_ok());
    assert_eq!(subject(server.next_operation().unwrap()), "ns=1;i=2");
    assert!(
        matches!(server.record(OpAnswer::Node(OpOutcome::Rejected)), Err(ActorError::StartupError(ref m)) if m == "Failed to insert folder: ns=1;i=2")
    );
    assert!(server.next_operation().is_none());
    assert!(!server.is_built());
    assert!(server.record(OpAnswer::Node(OpOutcome::Inserted)).is_ok());
    assert!(server.next_operation().is_none());
    assert!(!server.is_built());
}

#[test]
fn server_is_built_when_the_whole_plan_was_answered() {
    let mut server = OpcuaServer::new("opcua", smoke_structure()).unwrap();
    let answers = answers_without_fault(server.plan());
    for answer in answers {
        assert!(server.next_operation().is_some());
        assert!(server.record(answer).is_ok());
    }
    assert!(server.next_operation().is_none());
    assert!(server.is_built());
    assert!(server.record(OpAnswer::Node(OpOutcome::Rejected)).is_ok());
    assert!(server.is_built());
}
