use ssh_terminal::channel::CommandOutput;
use ssh_terminal::command::{execution_result, plan_execution, ExecutionPlan};
use ssh_terminal::completion::complete_from_listing;
use ssh_terminal::connect::{
    begin_connect, classify_auth_outcome, classify_connect_failure, connect_address, key_failure,
    register_connection, select_credential, AuthOutcome, Credential,
};
use ssh_terminal::error::{Operation, SshError};
use ssh_terminal::heartbeat::{HeartbeatMonitor, MonitorAction, MonitorEvent};
use ssh_terminal::pool::ConnectionPool;
use ssh_terminal::records::{
    CompleteCommandParams, ConnectSshParams, DisconnectSshParams, ExecuteSshCommandParams,
    SshConnection,
};
use ssh_terminal::session::{
    begin_completion, begin_execution, classify_channel_failure, complete_completion,
    complete_execution, disconnect_ssh_server, disconnect_ssh_server_internal, exec_failure,
    CompletionStep, ExecutionStep,
};

type Pool = ConnectionPool<u32, u64, &'static str>;

fn connection(id: &str, session: u32) -> SshConnection<u32, u64, &'static str> {
    SshConnection {
        server_id: id.to_string(),
        host: "example.com".to_string(),
        port: 22,
        username: "root".to_string(),
        session,
        last_heartbeat: 1000 + session as u64,
        heartbeat_task: "task",
    }
}

fn connect_params(id: &str, password: Option<&str>, key_path: Option<&str>) -> ConnectSshParams {
    ConnectSshParams {
        server_id: id.to_string(),
        host: "example.com".to_string(),
        port: 2222,
        username: "root".to_string(),
        password: password.map(|s| s.to_string()),
        key_path: key_path.map(|s| s.to_string()),
    }
}

fn execute(id: &str, command: &str, dir: Option<&str>) -> ExecuteSshCommandParams {
    ExecuteSshCommandParams {
        server_id: id.to_string(),
        command: command.to_string(),
        current_dir: dir.map(|s| s.to_string()),
    }
}

fn complete(id: &str, input: &str, dir: &str) -> CompleteCommandParams {
    CompleteCommandParams { server_id: id.to_string(), input: input.to_string(), current_dir: dir.to_string() }
}

fn disconnect(id: &str) -> DisconnectSshParams {
    DisconnectSshParams { server_id: id.to_string() }
}

#[test]
fn a_new_registry_is_empty() {
    let pool = Pool::new();
    assert!(!pool.contains("s1"));
    assert!(!pool.contains(""));
    assert!(matches!(pool.lookup("s1"), Err(SshError::NotConnected)));
}

#[test]
fn a_stored_connection_is_found_under_its_id() {
    let mut pool = Pool::new();
    assert!(pool.insert(connection("s1", 1)).is_ok());
    assert!(pool.insert(connection("s2", 2)).is_ok());
    assert!(pool.contains("s1"));
    assert!(pool.contains("s2"));
    assert!(!pool.contains("s3"));
    assert!(!pool.contains("s"));
    let found = pool.lookup("s2").ok().expect("s2 is connected");
    assert_eq!(found.server_id, "s2");
    assert_eq!(found.session, 2);
    assert_eq!(found.last_heartbeat, 1002);
    assert_eq!(pool.lookup("s1").ok().map(|c| c.session), Some(1));
}

#[test]
fn a_second_connection_for_an_id_is_refused() {
    let mut pool = Pool::new();
    assert!(pool.insert(connection("s1", 1)).is_ok());
    match pool.insert(connection("s1", 2)) {
        Err((SshError::AlreadyConnected, back)) => {
            assert_eq!(back.server_id, "s1");
            assert_eq!(back.session, 2);
        }
        _ => panic!("the second connection must be refused"),
    }
    assert_eq!(pool.lookup("s1").ok().map(|c| c.session), Some(1));
    assert!(pool.remove("s1").is_some());
    assert!(pool.remove("s1").is_none());
}

#[test]
fn removal_takes_one_connection_away() {
    let mut pool = Pool::new();
    for (id, session) in [("a", 1u32), ("b", 2), ("c", 3)] {
        assert!(pool.insert(connection(id, session)).is_ok());
    }
    let removed = pool.remove("b").expect("b is connected");
    assert_eq!(removed.server_id, "b");
    assert_eq!(removed.session, 2);
    assert!(pool.contains("a"));
    assert!(!pool.contains("b"));
    assert!(pool.contains("c"));
    assert_eq!(pool.lookup("c").ok().map(|c| c.session), Some(3));
    assert!(pool.remove("b").is_none());
    assert!(pool.remove("never").is_none());
    assert!(pool.insert(connection("b", 9)).is_ok());
    assert_eq!(pool.lookup("b").ok().map(|c| c.session), Some(9));
}

#[test]
fn teardown_is_idempotent() {
    let mut pool = Pool::new();
    assert!(pool.insert(connection("s1", 1)).is_ok());
    assert_eq!(disconnect_ssh_server_internal(&mut pool, "s1").map(|c| c.session), Some(1));
    assert!(disconnect_ssh_server_internal(&mut pool, "s1").is_none());
    assert!(disconnect_ssh_server_internal(&mut pool, "s1").is_none());
    assert!(!pool.contains("s1"));
}

#[test]
fn disconnect_twice_succeeds_twice() {
    let mut pool = Pool::new();
    assert!(pool.insert(connection("s1", 7)).is_ok());
    let (answer, removed) = disconnect_ssh_server(&mut pool, &disconnect("s1"));
    assert!(answer.success);
    assert_eq!(answer.message, Some("断开连接成功".to_string()));
    assert_eq!(removed.map(|c| c.session), Some(7));
    let (answer, removed) = disconnect_ssh_server(&mut pool, &disconnect("s1"));
    assert!(answer.success);
    assert_eq!(answer.message, Some("连接已断开".to_string()));
    assert!(removed.is_none());
}

#[test]
fn disconnect_of_an_unknown_id_succeeds() {
    let mut pool = Pool::new();
    assert!(pool.insert(connection("other", 1)).is_ok());
    let (answer, removed) = disconnect_ssh_server(&mut pool, &disconnect("never"));
    assert!(answer.success);
    assert_eq!(answer.message, Some("连接已断开".to_string()));
    assert!(removed.is_none());
    assert!(pool.contains("other"));
}

#[test]
fn execute_without_connection_is_refused() {
    let pool = Pool::new();
    match begin_execution(&pool, &execute("never", "ls -la", None)) {
        Err(e) => {
            assert!(matches!(e, SshError::NotConnected));
            assert_eq!(e.message(), "服务器未连接");
        }
        Ok(_) => panic!("must be refused"),
    }
}

#[test]
fn an_interactive_command_is_answered_without_connection() {
    let pool = Pool::new();
    match begin_execution(&pool, &execute("never", "vim foo.txt", None)) {
        Ok(ExecutionStep::Answer(r)) => {
            assert!(r.is_interactive);
            assert_eq!(r.exit_code, 0);
            assert_eq!(r.output, "");
            assert!(!r.interactive_message.unwrap().is_empty());
        }
        _ => panic!("must be answered"),
    }
}

#[test]
fn execute_runs_on_the_session_of_the_connection() {
    let mut pool = Pool::new();
    assert!(pool.insert(connection("s1", 11)).is_ok());
    assert!(pool.insert(connection("s2", 12)).is_ok());
    match begin_execution(&pool, &execute("s2", " cd /tmp ", Some("/home/u"))) {
        Ok(ExecutionStep::Run { session, last_heartbeat, shell_command, is_cd }) => {
            assert_eq!(*session, 12);
            assert_eq!(*last_heartbeat, 1012);
            assert_eq!(shell_command, "bash -c 'cd \"/home/u\" && cd \"/tmp\" && pwd'");
            assert!(is_cd);
        }
        _ => panic!("must be run"),
    }
    match begin_execution(&pool, &execute("s1", "ls", None)) {
        Ok(ExecutionStep::Run { session, shell_command, is_cd, .. }) => {
            assert_eq!(*session, 11);
            assert_eq!(shell_command, "bash -c 'ls'");
            assert!(!is_cd);
        }
        _ => panic!("must be run"),
    }
}

#[test]
fn completion_without_connection_is_refused() {
    let pool = Pool::new();
    assert!(matches!(begin_completion(&pool, &complete("never", "ls fo", "/home/u")), Err(SshError::NotConnected)));
}

#[test]
fn completion_of_nothing_is_answered_without_connection() {
    let pool = Pool::new();
    match begin_completion(&pool, &complete("never", "  ", "/home/u")) {
        Ok(CompletionStep::Answer(r)) => {
            assert_eq!(r.completed_input, None);
            assert!(r.matches.is_empty());
            assert!(!r.should_show_matches);
        }
        _ => panic!("must be answered"),
    }
    match begin_completion(&pool, &complete("never", "ls /", "/home/u")) {
        Ok(CompletionStep::Answer(r)) => assert_eq!(r.completed_input, None),
        _ => panic!("must be answered"),
    }
}

#[test]
fn completion_lists_on_the_session_of_the_connection() {
    let mut pool = Pool::new();
    assert!(pool.insert(connection("s1", 5)).is_ok());
    match begin_completion(&pool, &complete("s1", "cat ./src/ma", "/home/u")) {
        Ok(CompletionStep::Query { session, shell_command }) => {
            assert_eq!(*session, 5);
            assert_eq!(shell_command, "bash -c 'cd \"/home/u/src/\" && ls -1d ma* 2>/dev/null | head -50'");
        }
        _ => panic!("must be listed"),
    }
    match begin_completion(&pool, &complete("s1", "gi", "/home/u")) {
        Ok(CompletionStep::Query { shell_command, .. }) => {
            assert_eq!(shell_command, "bash -c 'compgen -c gi | head -50'");
        }
        _ => panic!("must be listed"),
    }
}

#[test]
fn requests_are_closed_with_what_the_channel_gave() {
    let output = CommandOutput { data: b"/srv/www\n".to_vec(), exit_status: 0 };
    let r = complete_execution(&output, true);
    assert_eq!(r.new_dir, Some("/srv/www".to_string()));
    assert_eq!(r.output_lines, vec!["/srv/www"]);
    let output = CommandOutput { data: b"notes.txt\nnotes.md\n".to_vec(), exit_status: 0 };
    let r = complete_completion(&complete("s1", "cat no", "/home/u"), &output);
    assert_eq!(r.completed_input, Some("cat /home/u/notes.".to_string()));
    let output = CommandOutput { data: b"notes.txt\n".to_vec(), exit_status: 1 };
    let r = complete_completion(&complete("s1", "cat no", "/home/u"), &output);
    assert_eq!(r.completed_input, None);
    let output = CommandOutput { data: vec![b'n', b'o', 0xff, b'\n', b'n', b'o', b'x', b'\n'], exit_status: 0 };
    let r = complete_completion(&complete("s1", "no", "/home/u"), &output);
    assert_eq!(r.matches, vec!["nox", "no\u{fffd}"]);
    assert!(r.should_show_matches);
}

#[test]
fn completing_a_path_and_changing_into_it() {
    let dir = "/home/u";
    let completed = complete_from_listing("cd pro", dir, 0, "projects\n").completed_input.expect("a unique match");
    assert_eq!(completed, "cd /home/u/projects");
    match plan_execution(&completed, Some(dir)) {
        ExecutionPlan::Run { shell_command, is_cd } => {
            assert!(is_cd);
            assert_eq!(shell_command, "bash -c 'cd \"/home/u\" && cd \"/home/u/projects\" && pwd'");
        }
        ExecutionPlan::Answer(_) => panic!("cd must be run"),
    }
    let r = execution_result("/home/u/projects\n".to_string(), 0, true);
    assert_eq!(r.new_dir, Some("/home/u/projects".to_string()));
}

#[test]
fn a_lost_transport_is_told_from_other_failures() {
    let (e, teardown) = classify_channel_failure(Operation::Command, "channel: disconnected");
    assert!(teardown);
    assert!(matches!(e, SshError::TransportLost { .. }));
    assert_eq!(e.message(), "打开通道失败: channel: disconnected，连接可能已断开");
    let (e, teardown) = classify_channel_failure(Operation::Command, "连接已断开");
    assert!(teardown);
    assert!(matches!(e, SshError::TransportLost { .. }));
    let (e, teardown) = classify_channel_failure(Operation::Command, "too many channels");
    assert!(!teardown);
    assert!(matches!(e, SshError::ChannelOpenFailed { operation: Operation::Command, .. }));
    assert_eq!(e.message(), "打开通道失败: too many channels，连接可能已断开");
    let (e, teardown) = classify_channel_failure(Operation::Completion, "channel: disconnected");
    assert!(!teardown);
    assert!(matches!(e, SshError::ChannelOpenFailed { operation: Operation::Completion, .. }));
    assert_eq!(e.message(), "打开通道失败: channel: disconnected");
}

#[test]
fn a_refused_command_is_an_exec_failure() {
    let e = exec_failure(Operation::Command, "broken pipe");
    assert!(matches!(e, SshError::ExecFailed { operation: Operation::Command, .. }));
    assert_eq!(e.message(), "执行命令失败: broken pipe");
    let e = exec_failure(Operation::Completion, "broken pipe");
    assert_eq!(e.message(), "执行补全命令失败: broken pipe");
}

#[test]
fn addresses() {
    assert_eq!(connect_address("example.com", 22), "example.com:22");
    assert_eq!(connect_address("10.0.0.1", 65535), "10.0.0.1:65535");
    assert_eq!(connect_address("::1", 0), "::1:0");
    assert_eq!(connect_address("", 2222), ":2222");
}

#[test]
fn exactly_one_credential_is_needed() {
    match select_credential(&connect_params("s", Some("secret"), None)) {
        Ok(Credential::Password(p)) => assert_eq!(p, "secret"),
        _ => panic!("the password must be chosen"),
    }
    match select_credential(&connect_params("s", None, Some("/home/u/.ssh/id_ed25519"))) {
        Ok(Credential::KeyFile(p)) => assert_eq!(p, "/home/u/.ssh/id_ed25519"),
        _ => panic!("the key must be chosen"),
    }
    assert!(matches!(select_credential(&connect_params("s", None, None)), Err(SshError::MissingCredential)));
    assert!(matches!(
        select_credential(&connect_params("s", Some("secret"), Some("/key"))),
        Err(SshError::MissingCredential)
    ));
}

#[test]
fn transport_failures_are_told_apart() {
    let e = classify_connect_failure("Connection refused (os error 111)", "example.com", 22);
    assert!(matches!(e, SshError::Unreachable { .. }));
    assert_eq!(e.message(), "无法连接到服务器 example.com:22，请检查主机地址和端口是否正确");
    let e = classify_connect_failure("connect timeout", "h", 2222);
    assert!(matches!(e, SshError::Timeout { .. }));
    assert_eq!(e.message(), "连接超时，无法连接到服务器 h:2222");
    let e = classify_connect_failure("No route to host (os error 113)", "10.1.2.3", 22);
    assert!(matches!(e, SshError::NoRoute { .. }));
    assert_eq!(e.message(), "无法访问服务器 10.1.2.3:22，请检查网络连接");
    let e = classify_connect_failure("Key exchange init failed", "h", 22);
    assert!(matches!(e, SshError::OtherTransport { .. }));
    assert_eq!(e.message(), "连接失败: Key exchange init failed");
    assert!(matches!(classify_connect_failure("无法连接", "h", 22), SshError::Unreachable { .. }));
    assert!(matches!(classify_connect_failure("操作超时", "h", 22), SshError::Timeout { .. }));
    assert!(matches!(classify_connect_failure("", "h", 22), SshError::OtherTransport { .. }));
    assert!(matches!(
        classify_connect_failure("timeout after Connection refused", "h", 22),
        SshError::Unreachable { .. }
    ));
    assert!(matches!(
        classify_connect_failure("No route to host: timeout", "h", 22),
        SshError::Timeout { .. }
    ));
}

#[test]
fn authentication_outcomes() {
    assert!(classify_auth_outcome(&AuthOutcome::Accepted).is_ok());
    let e = classify_auth_outcome(&AuthOutcome::Rejected).unwrap_err();
    assert!(matches!(e, SshError::AuthFailed { reason: None }));
    assert_eq!(e.message(), "身份验证失败，请检查用户名、密码或密钥是否正确");
    let e = classify_auth_outcome(&AuthOutcome::Failed("Authentication failed: bad key".to_string())).unwrap_err();
    assert!(matches!(e, SshError::AuthFailed { reason: None }));
    let e = classify_auth_outcome(&AuthOutcome::Failed("认证失败".to_string())).unwrap_err();
    assert!(matches!(e, SshError::AuthFailed { reason: None }));
    let e = classify_auth_outcome(&AuthOutcome::Failed("Disconnected".to_string())).unwrap_err();
    assert!(matches!(e, SshError::AuthFailed { reason: Some(_) }));
    assert_eq!(e.message(), "身份验证错误: Disconnected");
}

#[test]
fn the_remaining_messages() {
    assert_eq!(SshError::AlreadyConnected.message(), "服务器已连接");
    assert_eq!(SshError::MissingCredential.message(), "必须提供密码或密钥路径");
    let e = key_failure("No such file");
    assert!(matches!(e, SshError::KeyUnreadable { .. }));
    assert_eq!(e.message(), "加载密钥文件失败: No such file，请检查密钥文件路径是否正确");
}

#[test]
fn connect_is_refused_for_a_connected_id() {
    let mut pool = Pool::new();
    let params = connect_params("s1", Some("pw"), None);
    assert_eq!(begin_connect(&pool, &params).ok(), Some("example.com:2222".to_string()));
    let answer = register_connection(&mut pool, connection("s1", 1)).ok().expect("the first is stored");
    assert!(answer.success);
    assert_eq!(answer.connection_id, "s1");
    assert_eq!(answer.message, Some("连接成功".to_string()));
    match begin_connect(&pool, &params) {
        Err(e) => assert_eq!(e.message(), "服务器已连接"),
        Ok(_) => panic!("must be refused"),
    }
}

#[test]
fn of_two_racing_connects_one_survives() {
    let mut pool = Pool::new();
    let params = connect_params("s1", Some("pw"), None);
    assert!(begin_connect(&pool, &params).is_ok());
    assert!(begin_connect(&pool, &params).is_ok());
    assert!(register_connection(&mut pool, connection("s1", 1)).is_ok());
    match register_connection(&mut pool, connection("s1", 2)) {
        Err((SshError::AlreadyConnected, back)) => assert_eq!(back.session, 2),
        _ => panic!("the second must be refused"),
    }
    assert_eq!(pool.lookup("s1").ok().map(|c| c.session), Some(1));
}

#[test]
fn a_dead_connection_is_forgotten() {
    let mut pool = Pool::new();
    assert!(pool.insert(connection("s1", 1)).is_ok());
    let (mut monitor, first) = HeartbeatMonitor::start();
    assert_eq!(first, MonitorAction::Sleep { secs: 30 });
    assert_eq!(monitor.step(MonitorEvent::Woke { idle_secs: 30, idle_nanos: 0 }), MonitorAction::OpenChannel);
    let action = monitor.step(MonitorEvent::ChannelRefused);
    assert_eq!(action, MonitorAction::Teardown);
    assert!(monitor.is_terminated());
    assert_eq!(disconnect_ssh_server_internal(&mut pool, "s1").map(|c| c.session), Some(1));
    assert_eq!(monitor.step(MonitorEvent::Woke { idle_secs: 30, idle_nanos: 0 }), MonitorAction::Ignore);
    assert!(matches!(begin_execution(&pool, &execute("s1", "ls", None)), Err(SshError::NotConnected)));
}
