use parallax_kernel::registry::Registry;
use parallax_kernel::ssh::{
    default_cmd_processors, list_files, AddProcessor, BaseSshHandler, CmdProcessor, OsFiles,
    SshFileOperation, SshHandler, SshServer,
};

fn call(server: &mut SshServer, cmd: &str) -> String {
    let reply = server.exec_request(cmd.as_bytes());
    assert_eq!(reply.exit_status, 0);
    assert!(reply.close_channel);
    String::from_utf8(reply.data).unwrap()
}

#[test]
fn tests_smoke_ssh() {
    let mut server = SshServer::default();

    assert_eq!("No files found\n", call(&mut server, "ls"));

    server
        .handle_file_operation(SshFileOperation::Add(
            "C:\\Users\\besok\\Documents\\test1".to_string(),
            b"test".to_vec(),
        ))
        .unwrap();
    server
        .handle_file_operation(SshFileOperation::Add(
            "C:\\Users\\besok\\Documents\\test2".to_string(),
            b"test".to_vec(),
        ))
        .unwrap();

    assert_eq!(
        "C:\\Users\\besok\\Documents\\test1\nC:\\Users\\besok\\Documents\\test2\n",
        call(&mut server, "ls")
    );

    server
        .handle_file_operation(SshFileOperation::Remove(
            "C:\\Users\\besok\\Documents\\test1".to_string(),
        ))
        .unwrap();

    assert_eq!("C:\\Users\\besok\\Documents\\test2\n", call(&mut server, "ls"));

    assert_eq!("It is an Ssh test server!\n", call(&mut server, "ssh_test_server"));

    server
        .handle_add_processor(AddProcessor(CmdProcessor::Reply {
            command: "ssh_test_server".to_string(),
            output: "It is a new Ssh test server!\n".to_string(),
        }))
        .unwrap();

    assert_eq!("It is a new Ssh test server!\n", call(&mut server, "ssh_test_server"));
}

#[test]
fn default_server_listens_on_2222() {
    let server = SshServer::default();
    assert_eq!(server.key(), "ssh_server");
    assert_eq!(server.bind_address(), "127.0.0.1:2222");
    let server = SshServer::new("shell", "0.0.0.0", 65535, Some(Vec::new()));
    assert_eq!(server.bind_address(), "0.0.0.0:65535");
    assert_eq!(SshServer::new("shell", "h", 0, None).bind_address(), "h:0");
}

#[test]
fn unknown_command_is_echoed_untrimmed() {
    let mut server = SshServer::default();
    assert_eq!(call(&mut server, "whoami"), "Unknown command: whoami\n");
    assert_eq!(call(&mut server, " pwd "), "Unknown command:  pwd \n");
    assert_eq!(call(&mut server, ""), "Unknown command: \n");
}

#[test]
fn commands_are_trimmed_before_they_are_matched() {
    let mut server = SshServer::default();
    assert_eq!(call(&mut server, "  ls\n"), "No files found\n");
    assert_eq!(call(&mut server, "\tssh_test_server \r\n"), "It is an Ssh test server!\n");
    assert_eq!(call(&mut server, "\u{2003}ls\u{a0}"), "No files found\n");
    assert_eq!(call(&mut server, "l s"), "Unknown command: l s\n");
}

#[test]
fn history_records_every_command() {
    let mut server = SshServer::default();
    call(&mut server, "ls");
    call(&mut server, "nonsense");
    server.exec_request(b"bad \xff bytes");
    let handler = server.handler();
    assert_eq!(handler.history_len(), 3);
    assert_eq!(handler.history_at(0), "ls");
    assert_eq!(handler.history_at(1), "nonsense");
    assert_eq!(handler.history_at(2), "bad \u{fffd} bytes");
}

#[test]
fn readded_file_keeps_its_place() {
    let mut server = SshServer::default();
    for path in ["b", "a", "c"] {
        server
            .handle_file_operation(SshFileOperation::Add(path.to_string(), Vec::new()))
            .unwrap();
    }
    server.handle_file_operation(SshFileOperation::Add("a".to_string(), b"new".to_vec())).unwrap();
    assert_eq!(call(&mut server, "ls"), "b\na\nc\n");
    assert_eq!(server.handler().file_count(), 3);
    server.handle_file_operation(SshFileOperation::Remove("missing".to_string())).unwrap();
    server.handle_file_operation(SshFileOperation::Remove("b".to_string())).unwrap();
    assert_eq!(call(&mut server, "ls"), "a\nc\n");
}

#[test]
fn file_with_an_empty_path_lists_as_no_files() {
    let mut server = SshServer::default();
    server.handle_file_operation(SshFileOperation::Add(String::new(), Vec::new())).unwrap();
    assert_eq!(call(&mut server, "ls"), "No files found\n");
    server.handle_file_operation(SshFileOperation::Add("x".to_string(), Vec::new())).unwrap();
    assert_eq!(call(&mut server, "ls"), "\nx\n");
}

#[test]
fn user_processors_shadow_the_built_in_ones() {
    let mut handler = BaseSshHandler::default();
    assert_eq!(handler.len(), 2);
    let mut files: OsFiles = Registry::new();
    assert_eq!(handler.handle_command("ls", &mut files), "No files found\n");
    handler
        .add_processor(CmdProcessor::Prefix { prefix: "l".to_string(), output: "mine\n".to_string() })
        .unwrap();
    assert_eq!(handler.len(), 3);
    assert_eq!(handler.handle_command("ls", &mut files), "mine\n");
    assert_eq!(handler.handle_command(" list all", &mut files), "mine\n");
    assert_eq!(handler.handle_command("ssh_test_server", &mut files), "It is an Ssh test server!\n");
    assert_eq!(handler.handle_command("x", &mut files), "Unknown command: x\n");
}

#[test]
fn handler_without_processors_knows_no_command() {
    let handler = BaseSshHandler::new(Vec::new());
    let mut files: OsFiles = Registry::new();
    assert_eq!(handler.handle_command("ls", &mut files), "Unknown command: ls\n");
    let handler = BaseSshHandler::from(None);
    assert_eq!(handler.len(), 2);
    let handler = BaseSshHandler::from(Some(Vec::new()));
    assert_eq!(handler.len(), 0);
}

#[test]
fn default_processors_are_ls_and_banner() {
    let chain = default_cmd_processors();
    assert_eq!(chain.len(), 2);
    assert!(matches!(chain[0], CmdProcessor::ListFiles));
    assert!(matches!(chain[1], CmdProcessor::Banner));
    let mut files: OsFiles = Registry::new();
    assert_eq!(chain[0].apply("ls", &mut files), Some("No files found\n".to_string()));
    assert_eq!(chain[0].apply("ssh_test_server", &mut files), None);
    assert_eq!(chain[1].apply("ls", &mut files), None);
}

#[test]
fn handler_accepts_every_login() {
    let files: OsFiles = Registry::new();
    let mut handler = SshHandler::new(files, Vec::new(), BaseSshHandler::default());
    assert!(handler.auth_password("test_user", "test_pass"));
    assert!(handler.auth_password("", ""));
    assert!(handler.auth_publickey("anyone", &[1, 2, 3]));
    assert!(handler.channel_open_session());
    let reply = handler.exec_command("ls".to_string());
    assert_eq!(reply.data, b"No files found\n".to_vec());
    assert_eq!(reply.exit_status, 0);
}

#[test]
fn listing_joins_the_paths_with_newlines() {
    let mut files: OsFiles = Registry::new();
    assert_eq!(list_files(&files), "No files found\n");
    files.insert("one".to_string(), vec![1]);
    assert_eq!(list_files(&files), "one\n");
    files.insert("two".to_string(), vec![2]);
    assert_eq!(list_files(&files), "one\ntwo\n");
}

#[test]
fn processor_hands_back_an_updated_file_map() {
    let mut server = SshServer::new(
        "shell",
        "127.0.0.1",
        2200,
        Some(vec![
            CmdProcessor::Store {
                command: "touch notes".to_string(),
                path: "notes".to_string(),
                content: b"first".to_vec(),
                output: "created\n".to_string(),
            },
            CmdProcessor::Discard {
                command: "rm notes".to_string(),
                path: "notes".to_string(),
                output: "removed\n".to_string(),
            },
            CmdProcessor::ListFiles,
        ]),
    );
    assert_eq!(call(&mut server, "ls"), "No files found\n");
    assert_eq!(call(&mut server, " touch notes\n"), "created\n");
    assert_eq!(server.handler().file_count(), 1);
    assert_eq!(call(&mut server, "ls"), "notes\n");
    assert_eq!(call(&mut server, "touch notes"), "created\n");
    assert_eq!(server.handler().file_count(), 1);
    assert_eq!(call(&mut server, "touch other"), "Unknown command: touch other\n");
    assert_eq!(server.handler().file_count(), 1);
    assert_eq!(call(&mut server, "rm notes"), "removed\n");
    assert_eq!(server.handler().file_count(), 0);
    assert_eq!(call(&mut server, "rm notes"), "removed\n");
    assert_eq!(call(&mut server, "ls"), "No files found\n");
    assert_eq!(server.handler().history_len(), 8);
}

#[test]
fn processor_that_declines_leaves_the_file_map() {
    let mut files: OsFiles = Registry::new();
    files.insert("one".to_string(), vec![1]);
    let store = CmdProcessor::Store {
        command: "put".to_string(),
        path: "one".to_string(),
        content: vec![7, 8],
        output: "done".to_string(),
    };
    assert_eq!(store.apply("get", &mut files), None);
    assert_eq!(files.value_at(0), &vec![1]);
    assert_eq!(store.apply("put", &mut files), Some("done".to_string()));
    assert_eq!(files.len(), 1);
    assert_eq!(files.value_at(0), &vec![7, 8]);
    let handler = BaseSshHandler::new(vec![CmdProcessor::ListFiles, store]);
    assert_eq!(handler.handle_command("ls", &mut files), "one\n");
    assert_eq!(files.value_at(0), &vec![7, 8]);
}
