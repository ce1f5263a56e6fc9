use std::path::PathBuf;

use mishell::engine::{keeps_running, Engine, Progress, Reply, Request, RunStep};
use mishell::exec::ExitCode;
use mishell::parser::ASTNode;

fn engine() -> Engine {
    Engine::new(PathBuf::from("/"))
}

fn cmd(name: &str, args: &[&str]) -> ASTNode {
    ASTNode::Command { name: name.to_string(), args: args.iter().map(|s| s.to_string()).collect() }
}

fn exited(success: bool) -> Reply {
    Reply::Exited { success, status: "exit status: 1".to_string() }
}

fn show<T: std::fmt::Debug>(x: T) -> String {
    format!("{:?}", x)
}

#[test]
fn exit_status_is_kept() {
    let mut e = engine();
    assert_eq!(e.last_exit_status(), 0);
    e.set_last_exit_status(7);
    assert_eq!(e.last_exit_status(), 7);
}

#[test]
fn shell_text_of_commands() {
    let e = engine();
    assert_eq!(e.to_shell_command(&cmd("ls", &["-l", "/"])).unwrap(), "ls -l /");
    assert_eq!(e.to_shell_command(&cmd("ls", &[])).unwrap(), "ls ");
    let pipe = ASTNode::Pipeline { left: Box::new(cmd("a", &["1"])), right: Box::new(cmd("b", &[])) };
    assert_eq!(e.to_shell_command(&pipe).unwrap(), "a 1 | b ");
    let redir = ASTNode::Redirection {
        command: Box::new(cmd("a", &[])),
        file: "f".to_string(),
        direction: "<".to_string(),
    };
    assert_eq!(e.to_shell_command(&redir).unwrap(), "a  < f");
}

#[test]
fn shell_text_errors() {
    let e = engine();
    let redir = ASTNode::Redirection {
        command: Box::new(cmd("a", &[])),
        file: "f".to_string(),
        direction: "^".to_string(),
    };
    assert_eq!(e.to_shell_command(&redir).unwrap_err(), "Unknown redirection direction: ^");
    assert_eq!(
        e.to_shell_command(&ASTNode::Sequence(vec![])).unwrap_err(),
        "Unsupported AST node type for shell command"
    );
}

#[test]
fn command_asks_to_run_then_ends() {
    let e = engine();
    let ast = cmd("ls", &["-l"]);
    assert_eq!(
        show(e.execute(&ast, &vec![])),
        show(Progress::Ask(Request::Run { program: "ls".to_string(), args: vec!["-l".to_string()] }))
    );
    assert_eq!(show(e.execute(&ast, &vec![exited(true)])), show(Progress::Done(Ok(()), 1)));
    assert_eq!(
        show(e.execute(&ast, &vec![exited(false)])),
        show(Progress::Done(Err("Command 'ls' exited with status: exit status: 1".to_string()), 1))
    );
    assert_eq!(
        show(e.execute(&ast, &vec![Reply::Failed("boom".to_string())])),
        show(Progress::Done(
            Err("Failed to execute 'ls': Failed to execute command 'ls': boom".to_string()),
            1
        ))
    );
}

#[test]
fn exec_runs_its_first_argument() {
    let e = engine();
    assert_eq!(
        show(e.execute(&cmd("exec", &[]), &vec![])),
        show(Progress::Done(Err("No command provided for 'exec'".to_string()), 0))
    );
    let ast = cmd("exec", &["ls", "-a"]);
    assert_eq!(
        show(e.execute(&ast, &vec![])),
        show(Progress::Ask(Request::Exec { program: "ls".to_string(), args: vec!["-a".to_string()] }))
    );
    assert_eq!(
        show(e.execute(&ast, &vec![Reply::Failed("no such file".to_string())])),
        show(Progress::Done(Err("Failed to execute command 'ls': no such file".to_string()), 1))
    );
    assert_eq!(
        show(e.execute(&ast, &vec![Reply::WaitFailed("lost".to_string())])),
        show(Progress::Done(Err("Failed to wait for command 'ls': lost".to_string()), 1))
    );
}

#[test]
fn cd_changes_directory_then_reads_it() {
    let e = engine();
    assert_eq!(
        show(e.execute(&cmd("cd", &[]), &vec![])),
        show(Progress::Done(Err("cd requires exactly one argument".to_string()), 0))
    );
    let ast = cmd("cd", &["/tmp"]);
    assert_eq!(
        show(e.execute(&ast, &vec![])),
        show(Progress::Ask(Request::ChangeDir { path: "/tmp".to_string() }))
    );
    assert_eq!(show(e.execute(&ast, &vec![Reply::Done])), show(Progress::Ask(Request::CurrentDir)));
    assert_eq!(
        show(e.execute(&ast, &vec![Reply::Done, Reply::Done])),
        show(Progress::Done(Ok(()), 2))
    );
    assert_eq!(
        show(e.execute(&ast, &vec![Reply::Failed("denied".to_string())])),
        show(Progress::Done(Err("Failed to change directory: denied".to_string()), 1))
    );
    assert_eq!(
        show(e.execute(&ast, &vec![Reply::Done, Reply::Failed("gone".to_string())])),
        show(Progress::Done(Err("Failed to get current directory: gone".to_string()), 2))
    );
}

#[test]
fn and_stops_when_left_fails() {
    let e = engine();
    let ast = ASTNode::Logical {
        left: Box::new(cmd("a", &[])),
        right: Box::new(cmd("b", &[])),
        operator: "&&".to_string(),
    };
    assert_eq!(
        show(e.execute(&ast, &vec![exited(false)])),
        show(Progress::Done(Err("Command 'a' exited with status: exit status: 1".to_string()), 1))
    );
    assert_eq!(
        show(e.execute(&ast, &vec![exited(true)])),
        show(Progress::Ask(Request::Run { program: "b".to_string(), args: vec![] }))
    );
}

#[test]
fn or_stops_when_left_succeeds() {
    let e = engine();
    let ast = ASTNode::Logical {
        left: Box::new(cmd("a", &[])),
        right: Box::new(cmd("b", &[])),
        operator: "||".to_string(),
    };
    assert_eq!(show(e.execute(&ast, &vec![exited(true)])), show(Progress::Done(Ok(()), 1)));
    assert_eq!(
        show(e.execute(&ast, &vec![exited(false), exited(true)])),
        show(Progress::Done(Ok(()), 2))
    );
}

#[test]
fn unknown_operator_runs_the_left_side_then_fails() {
    let e = engine();
    let ast = ASTNode::Logical {
        left: Box::new(cmd("a", &[])),
        right: Box::new(cmd("b", &[])),
        operator: "^".to_string(),
    };
    assert_eq!(
        show(e.execute(&ast, &vec![exited(true)])),
        show(Progress::Done(Err("Unknown logical operator: ^".to_string()), 1))
    );
}

#[test]
fn sequence_stops_at_first_failure() {
    let e = engine();
    let ast = ASTNode::Sequence(vec![cmd("a", &[]), cmd("b", &[]), cmd("c", &[])]);
    assert_eq!(
        show(e.execute(&ast, &vec![exited(true), Reply::Failed("x".to_string())])),
        show(Progress::Done(
            Err("Failed to execute 'b': Failed to execute command 'b': x".to_string()),
            2
        ))
    );
    assert_eq!(
        show(e.execute(&ast, &vec![exited(true), exited(true), exited(true)])),
        show(Progress::Done(Ok(()), 3))
    );
}

#[test]
fn pipeline_captures_then_feeds() {
    let e = engine();
    let ast = ASTNode::Pipeline { left: Box::new(cmd("a", &[])), right: Box::new(cmd("b", &["1"])) };
    assert_eq!(
        show(e.execute(&ast, &vec![])),
        show(Progress::Ask(Request::Capture { script: "a ".to_string() }))
    );
    assert_eq!(
        show(e.execute(&ast, &vec![Reply::Output(b"out".to_vec())])),
        show(Progress::Ask(Request::Feed { script: "b 1".to_string(), input: b"out".to_vec() }))
    );
    assert_eq!(
        show(e.execute(&ast, &vec![Reply::Output(b"out".to_vec()), Reply::Done])),
        show(Progress::Done(Ok(()), 2))
    );
}

#[test]
fn redirection_runs_through_sh() {
    let e = engine();
    let ast = ASTNode::Redirection {
        command: Box::new(cmd("ls", &[])),
        file: "out".to_string(),
        direction: ">".to_string(),
    };
    assert_eq!(
        show(e.execute(&ast, &vec![])),
        show(Progress::Ask(Request::Redirect {
            script: "ls ".to_string(),
            file: "out".to_string(),
            write: true
        }))
    );
    let bad = ASTNode::Redirection {
        command: Box::new(cmd("ls", &[])),
        file: "out".to_string(),
        direction: "?".to_string(),
    };
    assert_eq!(
        show(e.execute(&bad, &vec![])),
        show(Progress::Done(Err("Unknown redirection direction: ?".to_string()), 0))
    );
}

#[test]
fn for_loop_sets_the_variable_each_round() {
    let e = engine();
    let ast = ASTNode::ForLoop {
        variable: "x".to_string(),
        values: vec!["1".to_string(), "2".to_string()],
        body: Box::new(cmd("echo", &[])),
    };
    assert_eq!(
        show(e.execute(&ast, &vec![])),
        show(Progress::Ask(Request::SetVar { name: "x".to_string(), value: "1".to_string() }))
    );
    assert_eq!(
        show(e.execute(&ast, &vec![Reply::Done, exited(true)])),
        show(Progress::Ask(Request::SetVar { name: "x".to_string(), value: "2".to_string() }))
    );
    assert_eq!(
        show(e.execute(&ast, &vec![Reply::Done, exited(true), Reply::Done, exited(true)])),
        show(Progress::Done(Ok(()), 4))
    );
}

#[test]
fn if_picks_a_branch() {
    let e = engine();
    let ast = ASTNode::IfCondition {
        condition: Box::new(cmd("test", &[])),
        then_branch: Box::new(cmd("yes", &[])),
        else_branch: Some(Box::new(cmd("no", &[]))),
    };
    assert_eq!(
        show(e.execute(&ast, &vec![exited(false)])),
        show(Progress::Ask(Request::Run { program: "no".to_string(), args: vec![] }))
    );
    assert_eq!(
        show(e.execute(&ast, &vec![exited(true)])),
        show(Progress::Ask(Request::Run { program: "yes".to_string(), args: vec![] }))
    );
    let no_else = ASTNode::IfCondition {
        condition: Box::new(cmd("test", &[])),
        then_branch: Box::new(cmd("yes", &[])),
        else_branch: None,
    };
    assert_eq!(show(e.execute(&no_else, &vec![exited(false)])), show(Progress::Done(Ok(()), 1)));
}

#[test]
fn replies_after_the_end_change_nothing() {
    let e = engine();
    let ast = ASTNode::Sequence(vec![cmd("a", &[]), cmd("b", &[])]);
    let done = show(e.execute(&ast, &vec![exited(true), exited(true)]));
    let more = show(e.execute(&ast, &vec![exited(true), exited(true), Reply::Failed("late".to_string())]));
    assert_eq!(done, more);
}

#[test]
fn parse_line_refuses_what_does_not_parse() {
    let e = engine();
    let known = vec!["ls".to_string()];
    assert_eq!(e.parse_line("ls if", &known).unwrap_err(), "Failed to parse command");
    assert_eq!(
        show(e.parse_line("ls -a;", &known)),
        show(Ok::<ASTNode, String>(cmd("ls", &["-a"])))
    );
}

#[test]
fn interrupt_sets_status_130() {
    let mut e = engine();
    let code = e.on_interrupt();
    assert_eq!(code.value(), 130);
    assert_eq!(e.last_exit_status(), 130);
    assert_eq!(e.working_dir, PathBuf::from("/"));
    assert_eq!(e.clone().working_dir, PathBuf::from("/"));
}

#[test]
fn shell_keeps_running_until_input_ends() {
    assert!(keeps_running(&RunStep::Executed(ExitCode::success())));
    assert!(keeps_running(&RunStep::Failed("x".to_string())));
    assert!(!keeps_running(&RunStep::Eof));
}

#[test]
fn a_run_reports_success() {
    let e = engine();
    let r = e.run_result(&cmd("ls", &[]));
    assert_eq!(r.value(), 0);
    assert!(!r.should_exit());
}

#[test]
fn exit_ends_the_shell() {
    let e = engine();
    let known = vec!["exit".to_string()];
    let ast = e.parse_line("exit", &known).expect("exit parses");
    assert_eq!(show(e.execute(&ast, &vec![])), show(Progress::Done(Ok(()), 0)));
    let r = e.run_result(&ast);
    assert!(r.should_exit());
    assert_eq!(r.value(), 0);
    assert!(!keeps_running(&RunStep::Executed(r)));
}
