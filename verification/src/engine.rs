//! The engine: it turns a command line into a command tree and runs the tree.
//!
//! Running a tree asks the host for work: to start a process, to change the
//! directory, to set a variable. The engine states each request and is handed
//! back the replies. `Engine::execute` is given the replies received so far and
//! answers with the next request, or with the result once no more work is
//! needed; the host performs the request and calls it again with one reply
//! more.

use std::path::PathBuf;

use vstd::prelude::*;

use crate::exec::ExitCode;
use crate::parser::{ast_result, spec_parse_program, ASTNode, Parser, SpecAST};
use crate::text::{owned, push_str, str_equal, texts};
use crate::tokenizer::{spec_tokenizer, token_values, tokenizer};

verus! {

#[verifier::external_type_specification]
#[verifier::external_body]
pub struct ExPathBuf(std::path::PathBuf);

/// std's `Clone` for `PathBuf`, which the engine's derived `Clone` calls. It
/// copies the path; nothing is stated of the copy.
pub assume_specification[ <std::path::PathBuf as std::clone::Clone>::clone ](
    _0: &std::path::PathBuf,
) -> std::path::PathBuf;

/// Work that the engine asks the host to do.
#[derive(Debug)]
pub enum Request {
    /// Start `program` with `args` in place of the command, and wait for it.
    Exec { program: String, args: Vec<String> },
    /// Run `program` with `args` and wait for its exit status.
    Run { program: String, args: Vec<String> },
    /// Change the current directory.
    ChangeDir { path: String },
    /// Read the current directory into the engine's working directory.
    CurrentDir,
    /// Run a script with `sh -c` and capture what it writes.
    Capture { script: String },
    /// Run a script with `sh -c`, writing `input` to it.
    Feed { script: String, input: Vec<u8> },
    /// Run a script with `sh -c`, its output written to the file (`write`) or
    /// its input read from the file.
    Redirect { script: String, file: String, write: bool },
    /// Set an environment variable.
    SetVar { name: String, value: String },
}

/// What the host answers to a request.
#[derive(Debug)]
pub enum Reply {
    /// The work was done.
    Done,
    /// The work failed; the text tells why.
    Failed(String),
    /// The process ran to its end, with or without success; `status` is how
    /// its exit status reads.
    Exited { success: bool, status: String },
    /// The process started but waiting for it failed; the text tells why.
    WaitFailed(String),
    /// The output that the process wrote.
    Output(Vec<u8>),
}

/// Where a run stands: it needs the reply to a request, or it is over, with
/// its result and the number of replies it used.
#[derive(Debug)]
pub enum Progress {
    Ask(Request),
    Done(Result<(), String>, usize),
}

/// A request as a value.
pub enum SpecRequest {
    Exec { program: Seq<char>, args: Seq<Seq<char>> },
    Run { program: Seq<char>, args: Seq<Seq<char>> },
    ChangeDir { path: Seq<char> },
    CurrentDir,
    Capture { script: Seq<char> },
    Feed { script: Seq<char>, input: Seq<u8> },
    Redirect { script: Seq<char>, file: Seq<char>, write: bool },
    SetVar { name: Seq<char>, value: Seq<char> },
}

/// A reply as a value.
pub enum SpecReply {
    Done,
    Failed(Seq<char>),
    Exited { success: bool, status: Seq<char> },
    WaitFailed(Seq<char>),
    Output(Seq<u8>),
}

/// What reading and running one line came to.
#[derive(Debug)]
pub enum RunStep {
    /// The line ran, with this exit code.
    Executed(ExitCode),
    /// The line could not be run; the text tells why.
    Failed(String),
    /// The input ended.
    Eof,
}

/// Whether the shell reads another line after a step: not when the input
/// ended, nor when the exit code says to exit.
pub fn keeps_running(step: &RunStep) -> (r: bool)
    ensures
        r == match step {
            RunStep::Executed(code) => !code.exits(),
            RunStep::Failed(_) => true,
            RunStep::Eof => false,
        },
{
    match step {
        RunStep::Executed(code) => !code.should_exit(),
        RunStep::Failed(_) => true,
        RunStep::Eof => false,
    }
}

/// Progress as a value.
pub enum SpecProgress {
    Ask(SpecRequest),
    Done(Result<(), Seq<char>>, int),
}

impl View for Request {
    type V = SpecRequest;

    open spec fn view(&self) -> SpecRequest {
        match self {
            Request::Exec { program, args } => SpecRequest::Exec {
                program: program@,
                args: texts(args@),
            },
            Request::Run { program, args } => SpecRequest::Run { program: program@, args: texts(args@) },
            Request::ChangeDir { path } => SpecRequest::ChangeDir { path: path@ },
            Request::CurrentDir => SpecRequest::CurrentDir,
            Request::Capture { script } => SpecRequest::Capture { script: script@ },
            Request::Feed { script, input } => SpecRequest::Feed { script: script@, input: input@ },
            Request::Redirect { script, file, write } => SpecRequest::Redirect {
                script: script@,
                file: file@,
                write: *write,
            },
            Request::SetVar { name, value } => SpecRequest::SetVar { name: name@, value: value@ },
        }
    }
}

impl View for Reply {
    type V = SpecReply;

    open spec fn view(&self) -> SpecReply {
        match self {
            Reply::Done => SpecReply::Done,
            Reply::Failed(e) => SpecReply::Failed(e@),
            Reply::Exited { success, status } => SpecReply::Exited {
                success: *success,
                status: status@,
            },
            Reply::WaitFailed(e) => SpecReply::WaitFailed(e@),
            Reply::Output(b) => SpecReply::Output(b@),
        }
    }
}

impl View for Progress {
    type V = SpecProgress;

    open spec fn view(&self) -> SpecProgress {
        match self {
            Progress::Ask(q) => SpecProgress::Ask(q@),
            Progress::Done(Ok(()), k) => SpecProgress::Done(Ok(()), *k as int),
            Progress::Done(Err(e), k) => SpecProgress::Done(Err(e@), *k as int),
        }
    }
}

/// The replies as values.
pub open spec fn reply_values(rs: Seq<Reply>) -> Seq<SpecReply> {
    rs.map_values(|r: Reply| r@)
}

/// The reply at index `k`, if it has come.
pub open spec fn reply_at(rs: Seq<SpecReply>, k: int) -> Option<SpecReply> {
    if 0 <= k < rs.len() {
        Some(rs[k])
    } else {
        None
    }
}

/// The text of a failure reply.
pub open spec fn failure_text(r: SpecReply) -> Option<Seq<char>> {
    match r {
        SpecReply::Failed(e) => Some(e),
        SpecReply::WaitFailed(e) => Some(e),
        _ => None,
    }
}

/// Words joined with a separator between each two.
pub open spec fn join_words(ws: Seq<Seq<char>>, sep: Seq<char>) -> Seq<char>
    decreases ws.len(),
{
    if ws.len() == 0 {
        Seq::empty()
    } else if ws.len() == 1 {
        ws[0]
    } else {
        join_words(ws.drop_last(), sep) + sep + ws.last()
    }
}

/// The `sh` script that a command tree stands for: commands, pipes and
/// redirections can be written so, other trees cannot.
pub open spec fn spec_shell_command(node: SpecAST) -> Result<Seq<char>, Seq<char>>
    decreases node,
{
    match node {
        SpecAST::Command { name, args } => Ok(name + " "@ + join_words(args, " "@)),
        SpecAST::Pipeline { left, right } => match spec_shell_command(*left) {
            Err(e) => Err(e),
            Ok(l) => match spec_shell_command(*right) {
                Err(e) => Err(e),
                Ok(r) => Ok(l + " | "@ + r),
            },
        },
        SpecAST::Redirection { command, file, direction } => match spec_shell_command(*command) {
            Err(e) => Err(e),
            Ok(c) => if direction == ">"@ {
                Ok(c + " > "@ + file)
            } else if direction == "<"@ {
                Ok(c + " < "@ + file)
            } else {
                Err("Unknown redirection direction: "@ + direction)
            },
        },
        _ => Err("Unsupported AST node type for shell command"@),
    }
}

/// A process that ended: success, or the message that names its status.
pub open spec fn exit_result(program: Seq<char>, success: bool, status: Seq<char>) -> Result<
    (),
    Seq<char>,
> {
    if success {
        Ok(())
    } else {
        Err("Command '"@ + program + "' exited with status: "@ + status)
    }
}

/// A simple command. `exit` needs no work: it ends the shell once the line
/// is done; `exec` runs its first argument with the rest; `cd` changes the
/// directory and then reads it back; any other name is run as a program.
pub open spec fn spec_eval_command(
    name: Seq<char>,
    args: Seq<Seq<char>>,
    rs: Seq<SpecReply>,
    k: int,
) -> SpecProgress {
    if name == "exit"@ {
        SpecProgress::Done(Ok(()), k)
    } else if name == "exec"@ {
        if args.len() == 0 {
            SpecProgress::Done(Err("No command provided for 'exec'"@), k)
        } else {
            let program = args[0];
            match reply_at(rs, k) {
                None => SpecProgress::Ask(SpecRequest::Exec { program, args: args.skip(1) }),
                Some(SpecReply::Failed(e)) => SpecProgress::Done(
                    Err("Failed to execute command '"@ + program + "': "@ + e),
                    k + 1,
                ),
                Some(SpecReply::WaitFailed(e)) => SpecProgress::Done(
                    Err("Failed to wait for command '"@ + program + "': "@ + e),
                    k + 1,
                ),
                Some(SpecReply::Exited { success, status }) => SpecProgress::Done(
                    exit_result(program, success, status),
                    k + 1,
                ),
                Some(_) => SpecProgress::Done(Ok(()), k + 1),
            }
        }
    } else if name == "cd"@ {
        if args.len() != 1 {
            SpecProgress::Done(Err("cd requires exactly one argument"@), k)
        } else {
            match reply_at(rs, k) {
                None => SpecProgress::Ask(SpecRequest::ChangeDir { path: args[0] }),
                Some(r1) => if failure_text(r1) is Some {
                    SpecProgress::Done(
                        Err("Failed to change directory: "@ + failure_text(r1)->0),
                        k + 1,
                    )
                } else {
                    match reply_at(rs, k + 1) {
                        None => SpecProgress::Ask(SpecRequest::CurrentDir),
                        Some(r2) => if failure_text(r2) is Some {
                            SpecProgress::Done(
                                Err("Failed to get current directory: "@ + failure_text(r2)->0),
                                k + 2,
                            )
                        } else {
                            SpecProgress::Done(Ok(()), k + 2)
                        },
                    }
                },
            }
        }
    } else {
        match reply_at(rs, k) {
            None => SpecProgress::Ask(SpecRequest::Run { program: name, args }),
            Some(SpecReply::Exited { success, status }) => SpecProgress::Done(
                exit_result(name, success, status),
                k + 1,
            ),
            Some(r) => if failure_text(r) is Some {
                SpecProgress::Done(
                    Err(
                        "Failed to execute '"@ + name + "': Failed to execute command '"@ + name
                            + "': "@ + failure_text(r)->0,
                    ),
                    k + 1,
                )
            } else {
                SpecProgress::Done(Ok(()), k + 1)
            },
        }
    }
}

/// Whether a command tree is the command `exit`, which ends the shell.
pub open spec fn is_exit_command(node: SpecAST) -> bool {
    node matches SpecAST::Command { name, .. } && name == "exit"@
}

/// A request whose reply only tells success or failure, then the end.
pub open spec fn spec_single(q: SpecRequest, rs: Seq<SpecReply>, k: int) -> SpecProgress {
    match reply_at(rs, k) {
        None => SpecProgress::Ask(q),
        Some(r) => if failure_text(r) is Some {
            SpecProgress::Done(Err(failure_text(r)->0), k + 1)
        } else {
            SpecProgress::Done(Ok(()), k + 1)
        },
    }
}

/// Running a command tree with the replies `rs`, from reply `k` on.
pub open spec fn spec_eval(node: SpecAST, rs: Seq<SpecReply>, k: int) -> SpecProgress
    decreases node, 0int,
{
    match node {
        SpecAST::Command { name, args } => spec_eval_command(name, args, rs, k),
        SpecAST::Sequence(nodes) => spec_eval_seq(nodes, 0, rs, k),
        SpecAST::Pipeline { left, right } => match spec_shell_command(*left) {
            Err(e) => SpecProgress::Done(Err(e), k),
            Ok(ls) => match reply_at(rs, k) {
                None => SpecProgress::Ask(SpecRequest::Capture { script: ls }),
                Some(r1) => if failure_text(r1) is Some {
                    SpecProgress::Done(Err(failure_text(r1)->0), k + 1)
                } else {
                    let input = match r1 {
                        SpecReply::Output(b) => b,
                        _ => Seq::empty(),
                    };
                    match spec_shell_command(*right) {
                        Err(e) => SpecProgress::Done(Err(e), k + 1),
                        Ok(rsc) => spec_single(
                            SpecRequest::Feed { script: rsc, input },
                            rs,
                            k + 1,
                        ),
                    }
                },
            },
        },
        SpecAST::Redirection { command, file, direction } => match spec_shell_command(*command) {
            Err(e) => SpecProgress::Done(Err(e), k),
            Ok(sc) => if direction == ">"@ || direction == "<"@ {
                spec_single(
                    SpecRequest::Redirect { script: sc, file, write: direction == ">"@ },
                    rs,
                    k,
                )
            } else {
                SpecProgress::Done(Err("Unknown redirection direction: "@ + direction), k)
            },
        },
        SpecAST::Logical { left, right, operator } => match spec_eval(*left, rs, k) {
            SpecProgress::Ask(q) => SpecProgress::Ask(q),
            SpecProgress::Done(lr, k1) => if operator == "&&"@ {
                if lr is Ok {
                    spec_eval(*right, rs, k1)
                } else {
                    SpecProgress::Done(lr, k1)
                }
            } else if operator == "||"@ {
                if lr is Ok {
                    SpecProgress::Done(Ok(()), k1)
                } else {
                    spec_eval(*right, rs, k1)
                }
            } else {
                SpecProgress::Done(Err("Unknown logical operator: "@ + operator), k1)
            },
        },
        SpecAST::ForLoop { variable, values, body } => spec_eval_for(variable, values, *body, 0, rs, k),
        SpecAST::IfCondition { condition, then_branch, else_branch } => match spec_eval(
            *condition,
            rs,
            k,
        ) {
            SpecProgress::Ask(q) => SpecProgress::Ask(q),
            SpecProgress::Done(cr, k1) => if cr is Ok {
                spec_eval(*then_branch, rs, k1)
            } else {
                match else_branch {
                    Some(b) => spec_eval(*b, rs, k1),
                    None => SpecProgress::Done(Ok(()), k1),
                }
            },
        },
    }
}

/// Running the commands of a sequence from the `i`-th on, stopping at the
/// first failure.
pub open spec fn spec_eval_seq(nodes: Seq<SpecAST>, i: int, rs: Seq<SpecReply>, k: int) -> SpecProgress
    decreases nodes, nodes.len() - i,
{
    if 0 <= i < nodes.len() {
        match spec_eval(nodes[i], rs, k) {
            SpecProgress::Ask(q) => SpecProgress::Ask(q),
            SpecProgress::Done(Err(e), k1) => SpecProgress::Done(Err(e), k1),
            SpecProgress::Done(Ok(()), k1) => spec_eval_seq(nodes, i + 1, rs, k1),
        }
    } else {
        SpecProgress::Done(Ok(()), k)
    }
}

/// Running the body of a `for` loop for the values from the `i`-th on, the
/// variable set to each value first, stopping at the first failure.
pub open spec fn spec_eval_for(
    variable: Seq<char>,
    values: Seq<Seq<char>>,
    body: SpecAST,
    i: int,
    rs: Seq<SpecReply>,
    k: int,
) -> SpecProgress
    decreases body, values.len() - i,
{
    if 0 <= i < values.len() {
        match reply_at(rs, k) {
            None => SpecProgress::Ask(SpecRequest::SetVar { name: variable, value: values[i] }),
            Some(_) => match spec_eval(body, rs, k + 1) {
                SpecProgress::Ask(q) => SpecProgress::Ask(q),
                SpecProgress::Done(Err(e), k1) => SpecProgress::Done(Err(e), k1),
                SpecProgress::Done(Ok(()), k1) => spec_eval_for(variable, values, body, i + 1, rs, k1),
            },
        }
    } else {
        SpecProgress::Done(Ok(()), k)
    }
}

/// The work a progress reports is within the replies given.
pub open spec fn within(p: SpecProgress, k: int, n: int) -> bool {
    p matches SpecProgress::Done(_, k1) ==> k <= k1 <= n
}

fn concat3(a: &str, b: &str, c: &str) -> (r: String)
    ensures
        r@ == a@ + b@ + c@,
{
    let mut s = owned(a);
    push_str(&mut s, b);
    push_str(&mut s, c);
    s
}

fn clone_texts(v: &Vec<String>, from: usize) -> (r: Vec<String>)
    requires
        from <= v.len(),
    ensures
        texts(r@) == texts(v@).skip(from as int),
{
    let mut out: Vec<String> = Vec::new();
    let mut i: usize = from;
    while i < v.len()
        invariant
            from <= i <= v.len(),
            texts(out@) == texts(v@).subrange(from as int, i as int),
        decreases v.len() - i,
    {
        let c = v[i].clone();
        let ghost before = texts(out@);
        out.push(c);
        assert(texts(out@) =~= before.push(v@[i as int]@));
        assert(texts(out@) =~= texts(v@).subrange(from as int, i as int + 1));
        i = i + 1;
    }
    assert(texts(v@).subrange(from as int, v.len() as int) =~= texts(v@).skip(from as int));
    out
}

/// The words joined with single spaces.
fn join_spaced(ws: &Vec<String>) -> (r: String)
    ensures
        r@ == join_words(texts(ws@), " "@),
{
    let mut s = String::new();
    let mut i: usize = 0;
    while i < ws.len()
        invariant
            i <= ws.len(),
            s@ == join_words(texts(ws@).take(i as int), " "@),
        decreases ws.len() - i,
    {
        let ghost before = texts(ws@).take(i as int);
        assert(texts(ws@).take(i as int + 1).drop_last() =~= before);
        if i > 0 {
            push_str(&mut s, " ");
        }
        push_str(&mut s, ws[i].as_str());
        i = i + 1;
        proof {
            if i == 1 {
                assert(s@ =~= join_words(texts(ws@).take(i as int), " "@));
            }
        }
    }
    assert(texts(ws@).take(ws.len() as int) =~= texts(ws@));
    s
}

/// The text of a failure reply.
fn failure_of(r: &Reply) -> (t: Option<&String>)
    ensures
        match t {
            Some(e) => failure_text(r@) == Some(e@),
            None => failure_text(r@) is None,
        },
{
    match r {
        Reply::Failed(e) => Some(e),
        Reply::WaitFailed(e) => Some(e),
        _ => None,
    }
}

fn single(q: Request, rs: &Vec<Reply>, k: usize) -> (r: Progress)
    requires
        k <= rs.len(),
    ensures
        r@ == spec_single(q@, reply_values(rs@), k as int),
        within(r@, k as int, rs.len() as int),
{
    if k >= rs.len() {
        return Progress::Ask(q);
    }
    match failure_of(&rs[k]) {
        Some(e) => Progress::Done(Err(e.clone()), k + 1),
        None => Progress::Done(Ok(()), k + 1),
    }
}

#[derive(Debug, Clone)]
pub struct Engine {
    pub working_dir: PathBuf,
    last_exit_status: u8,
}

impl Engine {
    /// The exit status of the last command.
    pub closed spec fn status(&self) -> u8 {
        self.last_exit_status
    }

    /// The working directory.
    pub closed spec fn dir(&self) -> PathBuf {
        self.working_dir
    }

    /// An engine in the given working directory; the last exit status is 0.
    pub fn new(working_dir: PathBuf) -> (r: Engine)
        ensures
            r.status() == 0,
            r.dir() == working_dir,
    {
        Engine { working_dir, last_exit_status: 0 }
    }

    /// Stores the directory that the host reports as current, after a `cd`
    /// changed it; the exit status stays as it is.
    pub fn set_working_dir(&mut self, dir: PathBuf)
        ensures
            final(self).dir() == dir,
            final(self).status() == old(self).status(),
    {
        self.working_dir = dir;
    }

    pub fn last_exit_status(&self) -> (r: u8)
        ensures
            r == self.status(),
    {
        self.last_exit_status
    }

    pub fn set_last_exit_status(&mut self, exit_status: u8)
        ensures
            final(self).status() == exit_status,
            final(self).dir() == old(self).dir(),
    {
        self.last_exit_status = exit_status;
    }

    /// The command tree of a command line, with the known command names in
    /// `known`; a line that does not parse is refused.
    pub fn parse_line(&self, command: &str, known: &Vec<String>) -> (r: Result<ASTNode, String>)
        ensures
            match r {
                Ok(ast) => spec_parse_program(spec_tokenizer(command@, texts(known@)), 0).0 == Ok::<
                    SpecAST,
                    Seq<char>,
                >(ast.model()),
                Err(e) => spec_parse_program(spec_tokenizer(command@, texts(known@)), 0).0 is Err
                    && e@ == "Failed to parse command"@,
            },
    {
        let tokens = tokenizer(command, known);
        let mut parser = Parser::new(tokens);
        match parser.parse() {
            Ok(ast) => Ok(ast),
            Err(_) => Err(owned("Failed to parse command")),
        }
    }

    /// An interrupted line: the last exit status becomes 130, and so does
    /// the code reported.
    pub fn on_interrupt(&mut self) -> (r: ExitCode)
        ensures
            final(self).status() == 130,
            final(self).dir() == old(self).dir(),
            r.code() == 130,
            !r.exits(),
    {
        self.set_last_exit_status(130);
        ExitCode::new(130)
    }

    /// What a run of a command line reports when it ends: success, which asks
    /// the shell to stop when the line was the command `exit`.
    pub fn run_result(&self, ast: &ASTNode) -> (r: ExitCode)
        ensures
            r.code() == 0,
            r.exits() == is_exit_command(ast.model()),
    {
        proof {
            reveal_strlit("exit");
        }
        match ast {
            ASTNode::Command { name, .. } => if str_equal(name.as_str(), "exit") {
                ExitCode::exiting(0)
            } else {
                ExitCode::success()
            },
            _ => ExitCode::success(),
        }
    }

    /// Runs a command tree with the replies received so far: the next request,
    /// or the result once the tree needs no more work.
    pub fn execute(&self, ast: &ASTNode, replies: &Vec<Reply>) -> (r: Progress)
        ensures
            r@ == spec_eval(ast.model(), reply_values(replies@), 0),
            within(r@, 0, replies.len() as int),
    {
        Self::eval(ast, replies, 0)
    }

    #[verifier::loop_isolation(false)]
    fn eval(node: &ASTNode, rs: &Vec<Reply>, k: usize) -> (r: Progress)
        requires
            k <= rs.len(),
        ensures
            r@ == spec_eval(node.model(), reply_values(rs@), k as int),
            within(r@, k as int, rs.len() as int),
        decreases node, 0int,
    {
        let ghost rv = reply_values(rs@);
        match node {
            ASTNode::Command { name, args } => Self::eval_command(name, args, rs, k),
            ASTNode::Sequence(nodes) => {
                let ghost nm = node.model()->Sequence_0;
                let mut i: usize = 0;
                let mut kk: usize = k;
                while i < nodes.len()
                    invariant
                        i <= nodes.len(),
                        k <= kk <= rs.len(),
                        nm.len() == nodes@.len(),
                        forall|j: int| 0 <= j < nodes@.len() ==> nm[j] == nodes@[j].model(),
                        spec_eval_seq(nm, 0, rv, k as int) == spec_eval_seq(nm, i as int, rv, kk as int),
                    decreases nodes.len() - i,
                {
                    assert(decreases_to!(node => nodes));
                    assert(decreases_to!(nodes => nodes@));
                    assert(decreases_to!(nodes@ => nodes@[i as int]));
                    match Self::eval(&nodes[i], rs, kk) {
                        Progress::Ask(q) => return Progress::Ask(q),
                        Progress::Done(Err(e), k1) => return Progress::Done(Err(e), k1),
                        Progress::Done(Ok(()), k1) => {
                            kk = k1;
                            i = i + 1;
                        },
                    }
                }
                Progress::Done(Ok(()), kk)
            },
            ASTNode::Pipeline { left, right } => {
                let ls = match Self::shell_command(left) {
                    Ok(s) => s,
                    Err(e) => return Progress::Done(Err(e), k),
                };
                if k >= rs.len() {
                    return Progress::Ask(Request::Capture { script: ls });
                }
                if let Some(e) = failure_of(&rs[k]) {
                    return Progress::Done(Err(e.clone()), k + 1);
                }
                let input = match &rs[k] {
                    Reply::Output(b) => b.clone(),
                    _ => Vec::new(),
                };
                proof {
                    if !(rs@[k as int] is Output) {
                        assert(input@ =~= Seq::<u8>::empty());
                    }
                }
                match Self::shell_command(right) {
                    Ok(rsc) => single(Request::Feed { script: rsc, input }, rs, k + 1),
                    Err(e) => Progress::Done(Err(e), k + 1),
                }
            },
            ASTNode::Redirection { command, file, direction } => {
                proof {
                    reveal_strlit(">");
                    reveal_strlit("<");
                }
                let sc = match Self::shell_command(command) {
                    Ok(s) => s,
                    Err(e) => return Progress::Done(Err(e), k),
                };
                let write = str_equal(direction.as_str(), ">");
                if write || str_equal(direction.as_str(), "<") {
                    single(Request::Redirect { script: sc, file: file.clone(), write }, rs, k)
                } else {
                    let mut msg = owned("Unknown redirection direction: ");
                    push_str(&mut msg, direction.as_str());
                    Progress::Done(Err(msg), k)
                }
            },
            ASTNode::Logical { left, right, operator } => {
                let (lr, k1) = match Self::eval(left, rs, k) {
                    Progress::Ask(q) => return Progress::Ask(q),
                    Progress::Done(lr, k1) => (lr, k1),
                };
                if str_equal(operator.as_str(), "&&") {
                    if lr.is_ok() {
                        Self::eval(right, rs, k1)
                    } else {
                        Progress::Done(lr, k1)
                    }
                } else if str_equal(operator.as_str(), "||") {
                    if lr.is_ok() {
                        Progress::Done(Ok(()), k1)
                    } else {
                        Self::eval(right, rs, k1)
                    }
                } else {
                    let mut msg = owned("Unknown logical operator: ");
                    push_str(&mut msg, operator.as_str());
                    Progress::Done(Err(msg), k1)
                }
            },
            ASTNode::ForLoop { variable, values, body } => {
                let ghost bm = node.model()->ForLoop_body;
                let ghost vm = texts(values@);
                let mut i: usize = 0;
                let mut kk: usize = k;
                while i < values.len()
                    invariant
                        i <= values.len(),
                        k <= kk <= rs.len(),
                        *bm == body.model(),
                        vm == texts(values@),
                        spec_eval_for(variable@, vm, *bm, 0, rv, k as int) == spec_eval_for(
                            variable@,
                            vm,
                            *bm,
                            i as int,
                            rv,
                            kk as int,
                        ),
                    decreases values.len() - i,
                {
                    if kk >= rs.len() {
                        return Progress::Ask(
                            Request::SetVar { name: variable.clone(), value: values[i].clone() },
                        );
                    }
                    match Self::eval(body, rs, kk + 1) {
                        Progress::Ask(q) => return Progress::Ask(q),
                        Progress::Done(Err(e), k1) => return Progress::Done(Err(e), k1),
                        Progress::Done(Ok(()), k1) => {
                            kk = k1;
                            i = i + 1;
                        },
                    }
                }
                Progress::Done(Ok(()), kk)
            },
            ASTNode::IfCondition { condition, then_branch, else_branch } => {
                let (cr, k1) = match Self::eval(condition, rs, k) {
                    Progress::Ask(q) => return Progress::Ask(q),
                    Progress::Done(cr, k1) => (cr, k1),
                };
                if cr.is_ok() {
                    Self::eval(then_branch, rs, k1)
                } else {
                    match else_branch {
                        Some(b) => Self::eval(b, rs, k1),
                        None => Progress::Done(Ok(()), k1),
                    }
                }
            },
        }
    }

    fn eval_command(name: &String, args: &Vec<String>, rs: &Vec<Reply>, k: usize) -> (r: Progress)
        requires
            k <= rs.len(),
        ensures
            r@ == spec_eval_command(name@, texts(args@), reply_values(rs@), k as int),
            within(r@, k as int, rs.len() as int),
    {
        proof {
            reveal_strlit("exit");
            reveal_strlit("exec");
            reveal_strlit("cd");
        }
        if str_equal(name.as_str(), "exit") {
            return Progress::Done(Ok(()), k);
        }
        if str_equal(name.as_str(), "exec") {
            if args.len() == 0 {
                return Progress::Done(Err(owned("No command provided for 'exec'")), k);
            }
            let program = &args[0];
            if k >= rs.len() {
                return Progress::Ask(
                    Request::Exec { program: program.clone(), args: clone_texts(args, 1) },
                );
            }
            return match &rs[k] {
                Reply::Failed(e) => {
                    let mut msg = concat3("Failed to execute command '", program.as_str(), "': ");
                    push_str(&mut msg, e.as_str());
                    Progress::Done(Err(msg), k + 1)
                },
                Reply::WaitFailed(e) => {
                    let mut msg = concat3("Failed to wait for command '", program.as_str(), "': ");
                    push_str(&mut msg, e.as_str());
                    Progress::Done(Err(msg), k + 1)
                },
                Reply::Exited { success, status } => Progress::Done(
                    Self::exit_result(program, *success, status),
                    k + 1,
                ),
                _ => Progress::Done(Ok(()), k + 1),
            };
        }
        if str_equal(name.as_str(), "cd") {
            if args.len() != 1 {
                return Progress::Done(Err(owned("cd requires exactly one argument")), k);
            }
            if k >= rs.len() {
                return Progress::Ask(Request::ChangeDir { path: args[0].clone() });
            }
            if let Some(e) = failure_of(&rs[k]) {
                let mut msg = owned("Failed to change directory: ");
                push_str(&mut msg, e.as_str());
                return Progress::Done(Err(msg), k + 1);
            }
            if k + 1 >= rs.len() {
                return Progress::Ask(Request::CurrentDir);
            }
            if let Some(e) = failure_of(&rs[k + 1]) {
                let mut msg = owned("Failed to get current directory: ");
                push_str(&mut msg, e.as_str());
                return Progress::Done(Err(msg), k + 2);
            }
            return Progress::Done(Ok(()), k + 2);
        }
        if k >= rs.len() {
            let all = clone_texts(args, 0);
            assert(texts(args@).skip(0) =~= texts(args@));
            return Progress::Ask(Request::Run { program: name.clone(), args: all });
        }
        if let Reply::Exited { success, status } = &rs[k] {
            return Progress::Done(Self::exit_result(name, *success, status), k + 1);
        }
        match failure_of(&rs[k]) {
            Some(e) => {
                let mut msg = concat3(
                    "Failed to execute '",
                    name.as_str(),
                    "': Failed to execute command '",
                );
                push_str(&mut msg, name.as_str());
                push_str(&mut msg, "': ");
                push_str(&mut msg, e.as_str());
                Progress::Done(Err(msg), k + 1)
            },
            None => Progress::Done(Ok(()), k + 1),
        }
    }

    fn exit_result(program: &String, success: bool, status: &String) -> (r: Result<(), String>)
        ensures
            match r {
                Ok(()) => exit_result(program@, success, status@) == Ok::<(), Seq<char>>(()),
                Err(e) => exit_result(program@, success, status@) == Err::<(), Seq<char>>(e@),
            },
    {
        if success {
            Ok(())
        } else {
            let mut msg = concat3("Command '", program.as_str(), "' exited with status: ");
            push_str(&mut msg, status.as_str());
            Err(msg)
        }
    }

    /// The `sh` script that a command tree stands for.
    pub fn to_shell_command(&self, ast: &ASTNode) -> (r: Result<String, String>)
        ensures
            match r {
                Ok(s) => spec_shell_command(ast.model()) == Ok::<Seq<char>, Seq<char>>(s@),
                Err(e) => spec_shell_command(ast.model()) == Err::<Seq<char>, Seq<char>>(e@),
            },
    {
        Self::shell_command(ast)
    }

    fn shell_command(ast: &ASTNode) -> (r: Result<String, String>)
        ensures
            match r {
                Ok(s) => spec_shell_command(ast.model()) == Ok::<Seq<char>, Seq<char>>(s@),
                Err(e) => spec_shell_command(ast.model()) == Err::<Seq<char>, Seq<char>>(e@),
            },
        decreases ast,
    {
        match ast {
            ASTNode::Command { name, args } => {
                let joined = join_spaced(args);
                Ok(concat3(name.as_str(), " ", joined.as_str()))
            },
            ASTNode::Pipeline { left, right } => {
                let l = match Self::shell_command(left) {
                    Ok(l) => l,
                    Err(e) => return Err(e),
                };
                let r = match Self::shell_command(right) {
                    Ok(r) => r,
                    Err(e) => return Err(e),
                };
                Ok(concat3(l.as_str(), " | ", r.as_str()))
            },
            ASTNode::Redirection { command, file, direction } => {
                proof {
                    reveal_strlit(">");
                    reveal_strlit("<");
                }
                let c = match Self::shell_command(command) {
                    Ok(c) => c,
                    Err(e) => return Err(e),
                };
                if str_equal(direction.as_str(), ">") {
                    Ok(concat3(c.as_str(), " > ", file.as_str()))
                } else if str_equal(direction.as_str(), "<") {
                    Ok(concat3(c.as_str(), " < ", file.as_str()))
                } else {
                    let mut msg = owned("Unknown redirection direction: ");
                    push_str(&mut msg, direction.as_str());
                    Err(msg)
                }
            },
            _ => Err(owned("Unsupported AST node type for shell command")),
        }
    }
}


/// The replies that have come stay the replies when more come after them.
pub proof fn lemma_reply_at_more(rs: Seq<SpecReply>, more: Seq<SpecReply>)
    ensures
        forall|j: int| #[trigger]
            reply_at(rs + more, j) == (if 0 <= j < rs.len() {
                reply_at(rs, j)
            } else if rs.len() <= j < rs.len() + more.len() {
                Some(more[j - rs.len()])
            } else {
                None
            }),
{
}

/// Running one request with more replies than it needs.
pub proof fn lemma_single_more(q: SpecRequest, rs: Seq<SpecReply>, more: Seq<SpecReply>, k: int)
    requires
        spec_single(q, rs, k) is Done,
    ensures
        spec_single(q, rs + more, k) == spec_single(q, rs, k),
{
    lemma_reply_at_more(rs, more);
}

/// A simple command with more replies than it needs.
pub proof fn lemma_command_more(
    name: Seq<char>,
    args: Seq<Seq<char>>,
    rs: Seq<SpecReply>,
    more: Seq<SpecReply>,
    k: int,
)
    requires
        spec_eval_command(name, args, rs, k) is Done,
    ensures
        spec_eval_command(name, args, rs + more, k) == spec_eval_command(name, args, rs, k),
{
    lemma_reply_at_more(rs, more);
}

/// Once a run is over, replies that come after it change nothing: the run ends
/// the same way, with the same result, having used the same replies.
pub proof fn lemma_eval_more(node: SpecAST, rs: Seq<SpecReply>, more: Seq<SpecReply>, k: int)
    requires
        spec_eval(node, rs, k) is Done,
    ensures
        spec_eval(node, rs + more, k) == spec_eval(node, rs, k),
    decreases node, 0int,
{
    lemma_reply_at_more(rs, more);
    match node {
        SpecAST::Command { name, args } => {
            lemma_command_more(name, args, rs, more, k);
        },
        SpecAST::Sequence(nodes) => {
            lemma_seq_more(nodes, 0, rs, more, k);
        },
        SpecAST::Pipeline { left, right } => {
            if let Ok(ls) = spec_shell_command(*left) {
                if let Some(r1) = reply_at(rs, k) {
                    if failure_text(r1) is None {
                        let input = match r1 {
                            SpecReply::Output(b) => b,
                            _ => Seq::empty(),
                        };
                        if let Ok(rsc) = spec_shell_command(*right) {
                            lemma_single_more(SpecRequest::Feed { script: rsc, input }, rs, more, k + 1);
                        }
                    }
                }
            }
        },
        SpecAST::Redirection { command, file, direction } => {
            if let Ok(sc) = spec_shell_command(*command) {
                if direction == ">"@ || direction == "<"@ {
                    lemma_single_more(
                        SpecRequest::Redirect { script: sc, file, write: direction == ">"@ },
                        rs,
                        more,
                        k,
                    );
                }
            }
        },
        SpecAST::Logical { left, right, operator } => {
            lemma_eval_more(*left, rs, more, k);
            if let SpecProgress::Done(lr, k1) = spec_eval(*left, rs, k) {
                if (operator == "&&"@ && lr is Ok) || (operator == "||"@ && lr is Err && operator
                    != "&&"@) {
                    lemma_eval_more(*right, rs, more, k1);
                }
            }
        },
        SpecAST::ForLoop { variable, values, body } => {
            lemma_for_more(variable, values, *body, 0, rs, more, k);
        },
        SpecAST::IfCondition { condition, then_branch, else_branch } => {
            lemma_eval_more(*condition, rs, more, k);
            if let SpecProgress::Done(cr, k1) = spec_eval(*condition, rs, k) {
                if cr is Ok {
                    lemma_eval_more(*then_branch, rs, more, k1);
                } else if let Some(b) = else_branch {
                    lemma_eval_more(*b, rs, more, k1);
                }
            }
        },
    }
}

/// The commands of a sequence, with more replies than they need.
pub proof fn lemma_seq_more(
    nodes: Seq<SpecAST>,
    i: int,
    rs: Seq<SpecReply>,
    more: Seq<SpecReply>,
    k: int,
)
    requires
        spec_eval_seq(nodes, i, rs, k) is Done,
    ensures
        spec_eval_seq(nodes, i, rs + more, k) == spec_eval_seq(nodes, i, rs, k),
    decreases nodes, nodes.len() - i,
{
    if 0 <= i < nodes.len() {
        lemma_eval_more(nodes[i], rs, more, k);
        if let SpecProgress::Done(Ok(()), k1) = spec_eval(nodes[i], rs, k) {
            lemma_seq_more(nodes, i + 1, rs, more, k1);
        }
    }
}

/// The rounds of a `for` loop, with more replies than they need.
pub proof fn lemma_for_more(
    variable: Seq<char>,
    values: Seq<Seq<char>>,
    body: SpecAST,
    i: int,
    rs: Seq<SpecReply>,
    more: Seq<SpecReply>,
    k: int,
)
    requires
        spec_eval_for(variable, values, body, i, rs, k) is Done,
    ensures
        spec_eval_for(variable, values, body, i, rs + more, k) == spec_eval_for(
            variable,
            values,
            body,
            i,
            rs,
            k,
        ),
    decreases body, values.len() - i,
{
    lemma_reply_at_more(rs, more);
    if 0 <= i < values.len() {
        if reply_at(rs, k) is Some {
            lemma_eval_more(body, rs, more, k + 1);
            if let SpecProgress::Done(Ok(()), k1) = spec_eval(body, rs, k + 1) {
                lemma_for_more(variable, values, body, i + 1, rs, more, k1);
            }
        }
    }
}

/// When the left side of `&&` fails, the right side is not run: the result is
/// the left side's failure.
pub proof fn lemma_and_stops_on_failure(
    left: SpecAST,
    right: SpecAST,
    rs: Seq<SpecReply>,
    k: int,
    e: Seq<char>,
    k1: int,
)
    requires
        spec_eval(left, rs, k) == SpecProgress::Done(Err(e), k1),
    ensures
        spec_eval(
            SpecAST::Logical { left: Box::new(left), right: Box::new(right), operator: "&&"@ },
            rs,
            k,
        ) == SpecProgress::Done(Err(e), k1),
{
}

/// When the left side of `||` succeeds, the right side is not run.
pub proof fn lemma_or_stops_on_success(
    left: SpecAST,
    right: SpecAST,
    rs: Seq<SpecReply>,
    k: int,
    k1: int,
)
    requires
        spec_eval(left, rs, k) == SpecProgress::Done(Ok(()), k1),
    ensures
        spec_eval(
            SpecAST::Logical { left: Box::new(left), right: Box::new(right), operator: "||"@ },
            rs,
            k,
        ) == SpecProgress::Done(Ok(()), k1),
{
    assert("||"@ != "&&"@) by {
        reveal_strlit("||");
        reveal_strlit("&&");
        assert("||"@[0] != "&&"@[0]);
    }
}


/// When the left side of `&&` succeeds, `left && right` ends as the right
/// side does when run from where the left side ended: with its result, its
/// failure included, and having used the same replies.
pub proof fn lemma_and_continues_on_success(
    left: SpecAST,
    right: SpecAST,
    rs: Seq<SpecReply>,
    k: int,
    k1: int,
)
    requires
        spec_eval(left, rs, k) == SpecProgress::Done(Ok(()), k1),
    ensures
        spec_eval(
            SpecAST::Logical { left: Box::new(left), right: Box::new(right), operator: "&&"@ },
            rs,
            k,
        ) == spec_eval(right, rs, k1),
{
}

/// When the left side of `||` fails, `left || right` ends as the right side
/// does when run from where the left side ended.
pub proof fn lemma_or_continues_on_failure(
    left: SpecAST,
    right: SpecAST,
    rs: Seq<SpecReply>,
    k: int,
    e: Seq<char>,
    k1: int,
)
    requires
        spec_eval(left, rs, k) == SpecProgress::Done(Err(e), k1),
    ensures
        spec_eval(
            SpecAST::Logical { left: Box::new(left), right: Box::new(right), operator: "||"@ },
            rs,
            k,
        ) == spec_eval(right, rs, k1),
{
    assert("||"@ != "&&"@) by {
        reveal_strlit("||");
        reveal_strlit("&&");
        assert("||"@[0] != "&&"@[0]);
    }
}

/// `left && right` succeeds only when both sides succeed, the right side run
/// from where the left side ended; and it succeeds whenever they both do.
pub proof fn lemma_and_succeeds_iff_both(
    left: SpecAST,
    right: SpecAST,
    rs: Seq<SpecReply>,
    k: int,
    k2: int,
)
    ensures
        spec_eval(
            SpecAST::Logical { left: Box::new(left), right: Box::new(right), operator: "&&"@ },
            rs,
            k,
        ) == SpecProgress::Done(Ok(()), k2) <==> exists|k1: int|
            spec_eval(left, rs, k) == SpecProgress::Done(Ok(()), k1) && spec_eval(right, rs, k1)
                == SpecProgress::Done(Ok(()), k2),
{
    let node = SpecAST::Logical { left: Box::new(left), right: Box::new(right), operator: "&&"@ };
    match spec_eval(left, rs, k) {
        SpecProgress::Done(lr, k1) => {
            if lr is Ok {
                let u: () = lr->Ok_0;
                assert(u == ());
                assert(lr == Ok::<(), Seq<char>>(()));
                lemma_and_continues_on_success(left, right, rs, k, k1);
            } else {
                assert(spec_eval(node, rs, k) == SpecProgress::Done(lr, k1));
            }
        },
        SpecProgress::Ask(q) => {
            assert(spec_eval(node, rs, k) == SpecProgress::Ask(q));
        },
    }
}

/// An `if` whose condition succeeds runs its `then` branch from where the
/// condition ended, and ends as that branch does.
pub proof fn lemma_if_takes_then_on_success(
    condition: SpecAST,
    then_branch: SpecAST,
    else_branch: Option<Box<SpecAST>>,
    rs: Seq<SpecReply>,
    k: int,
    k1: int,
)
    requires
        spec_eval(condition, rs, k) == SpecProgress::Done(Ok(()), k1),
    ensures
        spec_eval(
            SpecAST::IfCondition {
                condition: Box::new(condition),
                then_branch: Box::new(then_branch),
                else_branch,
            },
            rs,
            k,
        ) == spec_eval(then_branch, rs, k1),
{
}

/// An `if` whose condition fails runs its `else` branch from where the
/// condition ended, or, without one, succeeds there without running anything
/// more.
pub proof fn lemma_if_takes_else_on_failure(
    condition: SpecAST,
    then_branch: SpecAST,
    else_branch: Option<Box<SpecAST>>,
    rs: Seq<SpecReply>,
    k: int,
    e: Seq<char>,
    k1: int,
)
    requires
        spec_eval(condition, rs, k) == SpecProgress::Done(Err(e), k1),
    ensures
        spec_eval(
            SpecAST::IfCondition {
                condition: Box::new(condition),
                then_branch: Box::new(then_branch),
                else_branch,
            },
            rs,
            k,
        ) == match else_branch {
            Some(b) => spec_eval(*b, rs, k1),
            None => SpecProgress::Done(Ok(()), k1),
        },
{
}

/// A sequence stops at its first failure: the commands after it are not run.
pub proof fn lemma_sequence_stops_on_failure(
    nodes: Seq<SpecAST>,
    rs: Seq<SpecReply>,
    k: int,
    e: Seq<char>,
    k1: int,
)
    requires
        nodes.len() > 0,
        spec_eval(nodes[0], rs, k) == SpecProgress::Done(Err(e), k1),
    ensures
        spec_eval(SpecAST::Sequence(nodes), rs, k) == SpecProgress::Done(Err(e), k1),
{
    assert(spec_eval_seq(nodes, 0, rs, k) == SpecProgress::Done(Err::<(), Seq<char>>(e), k1));
}

} // verus!
