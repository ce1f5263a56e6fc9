//! The parser that the engine runs: it builds a command tree from classified
//! words.

use vstd::prelude::*;

use crate::text::{owned, push_str, str_equal, texts};
use crate::tokenizer::{ClassifiedToken, Token};

verus! {

#[derive(Debug)]
pub enum ASTNode {
    Command { name: String, args: Vec<String> },
    Sequence(Vec<ASTNode>),
    Pipeline { left: Box<ASTNode>, right: Box<ASTNode> },
    Redirection { command: Box<ASTNode>, file: String, direction: String },
    Logical { left: Box<ASTNode>, right: Box<ASTNode>, operator: String },
    ForLoop { variable: String, values: Vec<String>, body: Box<ASTNode> },
    IfCondition {
        condition: Box<ASTNode>,
        then_branch: Box<ASTNode>,
        else_branch: Option<Box<ASTNode>>,
    },
}

/// A command tree as a value.
pub enum SpecAST {
    Command { name: Seq<char>, args: Seq<Seq<char>> },
    Sequence(Seq<SpecAST>),
    Pipeline { left: Box<SpecAST>, right: Box<SpecAST> },
    Redirection { command: Box<SpecAST>, file: Seq<char>, direction: Seq<char> },
    Logical { left: Box<SpecAST>, right: Box<SpecAST>, operator: Seq<char> },
    ForLoop { variable: Seq<char>, values: Seq<Seq<char>>, body: Box<SpecAST> },
    IfCondition {
        condition: Box<SpecAST>,
        then_branch: Box<SpecAST>,
        else_branch: Option<Box<SpecAST>>,
    },
}

impl ASTNode {
    pub open spec fn model(&self) -> SpecAST
        decreases self,
    {
        match self {
            ASTNode::Command { name, args } => SpecAST::Command { name: name@, args: texts(args@) },
            ASTNode::Sequence(nodes) => SpecAST::Sequence(
                Seq::new(
                    nodes@.len(),
                    |i: int|
                        if 0 <= i < nodes@.len() {
                            nodes@[i].model()
                        } else {
                            arbitrary()
                        },
                ),
            ),
            ASTNode::Pipeline { left, right } => SpecAST::Pipeline {
                left: Box::new(left.model()),
                right: Box::new(right.model()),
            },
            ASTNode::Redirection { command, file, direction } => SpecAST::Redirection {
                command: Box::new(command.model()),
                file: file@,
                direction: direction@,
            },
            ASTNode::Logical { left, right, operator } => SpecAST::Logical {
                left: Box::new(left.model()),
                right: Box::new(right.model()),
                operator: operator@,
            },
            ASTNode::ForLoop { variable, values, body } => SpecAST::ForLoop {
                variable: variable@,
                values: texts(values@),
                body: Box::new(body.model()),
            },
            ASTNode::IfCondition { condition, then_branch, else_branch } => SpecAST::IfCondition {
                condition: Box::new(condition.model()),
                then_branch: Box::new(then_branch.model()),
                else_branch: match else_branch {
                    Some(b) => Some(Box::new(b.model())),
                    None => None,
                },
            },
        }
    }
}

impl DeepView for ASTNode {
    type V = SpecAST;

    open spec fn deep_view(&self) -> SpecAST {
        self.model()
    }
}

/// The outcome of a parsing step: the result, and the position where the
/// parser stands afterwards.
pub type Outcome<A> = (Result<A, Seq<char>>, int);

/// A parse result as a value.
pub open spec fn ast_result(r: Result<ASTNode, String>) -> Result<SpecAST, Seq<char>> {
    match r {
        Ok(n) => Ok(n.model()),
        Err(e) => Err(e@),
    }
}

/// The token at a position, if there is one.
pub open spec fn tok_at(t: Seq<ClassifiedToken>, pos: int) -> Option<ClassifiedToken> {
    if 0 <= pos < t.len() {
        Some(t[pos])
    } else {
        None
    }
}

/// Whether the keyword `kw` stands at a position.
pub open spec fn kw_at(t: Seq<ClassifiedToken>, pos: int, kw: Seq<char>) -> bool {
    tok_at(t, pos) == Some(ClassifiedToken::Keyword(kw))
}

/// Reads the keyword `kw`.
pub open spec fn spec_consume_keyword(t: Seq<ClassifiedToken>, pos: int, kw: Seq<char>) -> Outcome<
    (),
> {
    if kw_at(t, pos, kw) {
        (Ok(()), pos + 1)
    } else {
        (Err("Expected '"@ + kw + "'"@), pos)
    }
}

/// Reads a separator.
pub open spec fn spec_consume_separator(t: Seq<ClassifiedToken>, pos: int) -> Outcome<()> {
    if tok_at(t, pos) matches Some(ClassifiedToken::Separator(_)) {
        (Ok(()), pos + 1)
    } else {
        (Err("Expected an separator"@), pos)
    }
}

/// Whether an expression may end here without a separator: at the end of the
/// tokens, or before a keyword that closes a part of an `if` or a `for`.
pub open spec fn closes_expression(t: Seq<ClassifiedToken>, pos: int) -> bool {
    pos >= t.len() || kw_at(t, pos, "then"@) || kw_at(t, pos, "else"@) || kw_at(t, pos, "fi"@)
        || kw_at(t, pos, "done"@)
}

/// The end of an expression: a separator, which is read, or a place where an
/// expression may end without one.
pub open spec fn spec_end_expression(t: Seq<ClassifiedToken>, pos: int) -> Outcome<()> {
    if tok_at(t, pos) matches Some(ClassifiedToken::Separator(_)) {
        (Ok(()), pos + 1)
    } else if closes_expression(t, pos) {
        (Ok(()), pos)
    } else {
        (Err("Expected an separator"@), pos)
    }
}

/// Reads a value word as an identifier.
pub open spec fn spec_consume_identifier(t: Seq<ClassifiedToken>, pos: int) -> Outcome<Seq<char>> {
    match tok_at(t, pos) {
        Some(ClassifiedToken::Value(id)) => (Ok(id), pos + 1),
        _ => (Err("Expected an identifier"@), pos),
    }
}

/// The text of a token that can be a command argument.
pub open spec fn arg_text(tok: ClassifiedToken) -> Option<Seq<char>> {
    match tok {
        ClassifiedToken::Value(a) => Some(a),
        ClassifiedToken::IntegerLiteral(a) => Some(a),
        ClassifiedToken::FloatLiteral(a) => Some(a),
        ClassifiedToken::StringLiteral(a) => Some(a),
        _ => None,
    }
}

/// The arguments in a row from a position, and the position after them.
pub open spec fn arg_run(t: Seq<ClassifiedToken>, pos: int) -> (Seq<Seq<char>>, int)
    decreases t.len() - pos,
{
    if 0 <= pos < t.len() && arg_text(t[pos]) is Some {
        let rest = arg_run(t, pos + 1);
        (seq![arg_text(t[pos])->0] + rest.0, rest.1)
    } else {
        (Seq::empty(), pos)
    }
}

/// The value words in a row from a position, and the position after them.
pub open spec fn value_run(t: Seq<ClassifiedToken>, pos: int) -> (Seq<Seq<char>>, int)
    decreases t.len() - pos,
{
    if 0 <= pos < t.len() && t[pos] is Value {
        let rest = value_run(t, pos + 1);
        (seq![t[pos]->Value_0] + rest.0, rest.1)
    } else {
        (Seq::empty(), pos)
    }
}

pub proof fn lemma_arg_run(t: Seq<ClassifiedToken>, pos: int)
    requires
        0 <= pos,
    ensures
        pos <= arg_run(t, pos).1,
        pos <= t.len() ==> arg_run(t, pos).1 <= t.len(),
    decreases t.len() - pos,
{
    if 0 <= pos < t.len() && arg_text(t[pos]) is Some {
        lemma_arg_run(t, pos + 1);
    }
}

/// Whether a token can stand as a command's argument: a value word or an
/// integer, float or string literal.
pub open spec fn is_argument_token(tok: ClassifiedToken) -> bool {
    ||| tok is Value
    ||| tok is IntegerLiteral
    ||| tok is FloatLiteral
    ||| tok is StringLiteral
}

/// The text that a classified token carries.
pub open spec fn carried_text(tok: ClassifiedToken) -> Seq<char> {
    match tok {
        ClassifiedToken::Keyword(x) => x,
        ClassifiedToken::Identifier(x) => x,
        ClassifiedToken::Value(x) => x,
        ClassifiedToken::BooleanLiteral(x) => x,
        ClassifiedToken::IntegerLiteral(x) => x,
        ClassifiedToken::FloatLiteral(x) => x,
        ClassifiedToken::StringLiteral(x) => x,
        ClassifiedToken::Operator(x) => x,
        ClassifiedToken::Command(x) => x,
        ClassifiedToken::Separator(x) => x,
        ClassifiedToken::Whitespace(x) => x,
        ClassifiedToken::Comment(x) => x,
    }
}

proof fn lemma_arg_run_takes_all(t: Seq<ClassifiedToken>, p: int, n: int)
    requires
        0 <= p,
        0 <= n,
        p + n <= t.len(),
        forall|i: int| p <= i < p + n ==> is_argument_token(#[trigger] t[i]),
        p + n == t.len() || !is_argument_token(t[p + n]),
    ensures
        arg_run(t, p).0 == Seq::new(n as nat, |i: int| carried_text(t[p + i])),
        arg_run(t, p).1 == p + n,
    decreases n,
{
    if n == 0 {
        assert(arg_run(t, p).0 =~= Seq::new(n as nat, |i: int| carried_text(t[p + i])));
    } else {
        assert(is_argument_token(t[p]));
        lemma_arg_run_takes_all(t, p + 1, n - 1);
        assert(arg_run(t, p).0 =~= Seq::new(n as nat, |i: int| carried_text(t[p + i])));
    }
}

/// A command word takes as its arguments every value, integer, float and
/// string-literal token that follows it, in order, and the command ends at the
/// first token of another kind.
pub proof fn lemma_command_takes_all_arguments(t: Seq<ClassifiedToken>, pos: int, n: int)
    requires
        0 <= pos,
        0 <= n,
        pos + 1 + n <= t.len(),
        t[pos] is Command,
        forall|i: int| pos + 1 <= i < pos + 1 + n ==> is_argument_token(#[trigger] t[i]),
        pos + 1 + n == t.len() || !is_argument_token(t[pos + 1 + n]),
    ensures
        spec_parse_command(t, pos) == (
            Ok::<SpecAST, Seq<char>>(
                SpecAST::Command {
                    name: carried_text(t[pos]),
                    args: Seq::new(n as nat, |i: int| carried_text(t[pos + 1 + i])),
                },
            ),
            pos + 1 + n,
        ),
{
    lemma_arg_run_takes_all(t, pos + 1, n);
    assert(Seq::new(n as nat, |i: int| carried_text(t[pos + 1 + i])) =~= arg_run(t, pos + 1).0);
}

pub proof fn lemma_value_run(t: Seq<ClassifiedToken>, pos: int)
    requires
        0 <= pos,
    ensures
        pos <= value_run(t, pos).1,
        pos <= t.len() ==> value_run(t, pos).1 <= t.len(),
    decreases t.len() - pos,
{
    if 0 <= pos < t.len() && t[pos] is Value {
        lemma_value_run(t, pos + 1);
    }
}

/// A command word followed by its arguments.
pub open spec fn spec_parse_command(t: Seq<ClassifiedToken>, pos: int) -> Outcome<SpecAST> {
    match tok_at(t, pos) {
        Some(ClassifiedToken::Command(name)) => {
            let a = arg_run(t, pos + 1);
            (Ok(SpecAST::Command { name, args: a.0 }), a.1)
        },
        _ => (Err("Expected a command"@), pos),
    }
}

pub proof fn lemma_parse_command(t: Seq<ClassifiedToken>, pos: int)
    requires
        0 <= pos,
    ensures
        pos <= spec_parse_command(t, pos).1,
        pos <= t.len() ==> spec_parse_command(t, pos).1 <= t.len(),
        spec_parse_command(t, pos).0 is Ok ==> pos < spec_parse_command(t, pos).1,
{
    lemma_arg_run(t, pos + 1);
}

/// Pipes, redirections and logical operators after a command, applied from
/// left to right.
pub open spec fn spec_parse_ops(t: Seq<ClassifiedToken>, pos: int, left: SpecAST) -> Outcome<
    SpecAST,
>
    decreases t.len() - pos,
{
    if 0 <= pos < t.len() && t[pos] is Operator {
        let op = t[pos]->Operator_0;
        if op == "|"@ {
            let r = spec_parse_command(t, pos + 1);
            proof {
                lemma_parse_command(t, pos + 1);
            }
            match r.0 {
                Err(e) => (Err(e), r.1),
                Ok(right) => spec_parse_ops(
                    t,
                    r.1,
                    SpecAST::Pipeline { left: Box::new(left), right: Box::new(right) },
                ),
            }
        } else if op == ">"@ || op == "<"@ {
            match tok_at(t, pos + 1) {
                Some(ClassifiedToken::Value(file)) => spec_parse_ops(
                    t,
                    pos + 2,
                    SpecAST::Redirection { command: Box::new(left), file, direction: op },
                ),
                _ => (Err("Expected a file after redirection!"@), pos + 1),
            }
        } else if op == "||"@ || op == "&&"@ {
            let r = spec_parse_command(t, pos + 1);
            proof {
                lemma_parse_command(t, pos + 1);
            }
            match r.0 {
                Err(e) => (Err(e), r.1),
                Ok(right) => spec_parse_ops(
                    t,
                    r.1,
                    SpecAST::Logical { left: Box::new(left), right: Box::new(right), operator: op },
                ),
            }
        } else {
            (Ok(left), pos)
        }
    } else {
        (Ok(left), pos)
    }
}

pub proof fn lemma_parse_ops(t: Seq<ClassifiedToken>, pos: int, left: SpecAST)
    requires
        0 <= pos,
    ensures
        pos <= spec_parse_ops(t, pos, left).1,
        pos <= t.len() ==> spec_parse_ops(t, pos, left).1 <= t.len(),
    decreases t.len() - pos,
{
    if 0 <= pos < t.len() && t[pos] is Operator {
        let op = t[pos]->Operator_0;
        lemma_parse_command(t, pos + 1);
        let r = spec_parse_command(t, pos + 1);
        if op == "|"@ {
            if let Ok(right) = r.0 {
                lemma_parse_ops(t, r.1, SpecAST::Pipeline { left: Box::new(left), right: Box::new(right) });
            }
        } else if op == ">"@ || op == "<"@ {
            if let Some(ClassifiedToken::Value(file)) = tok_at(t, pos + 1) {
                lemma_parse_ops(
                    t,
                    pos + 2,
                    SpecAST::Redirection { command: Box::new(left), file, direction: op },
                );
            }
        } else if op == "||"@ || op == "&&"@ {
            if let Ok(right) = r.0 {
                lemma_parse_ops(
                    t,
                    r.1,
                    SpecAST::Logical { left: Box::new(left), right: Box::new(right), operator: op },
                );
            }
        }
    }
}

/// The keywords that end a list of commands: `done`, `fi` and `else`.
pub open spec fn ends_list(t: Seq<ClassifiedToken>, pos: int) -> bool {
    kw_at(t, pos, "done"@) || kw_at(t, pos, "fi"@) || kw_at(t, pos, "else"@)
}

/// A `for` loop, an `if` command, or a command with its operators; a command
/// must end with a separator.
pub open spec fn spec_parse_expression(t: Seq<ClassifiedToken>, pos: int) -> Outcome<SpecAST>
    decreases t.len() - pos, 1nat,
{
    if kw_at(t, pos, "for"@) {
        spec_parse_for(t, pos)
    } else if kw_at(t, pos, "if"@) {
        spec_parse_if(t, pos)
    } else {
        let c = spec_parse_command(t, pos);
        match c.0 {
            Err(e) => (Err(e), c.1),
            Ok(left) => {
                let o = spec_parse_ops(t, c.1, left);
                match o.0 {
                    Err(e) => (Err(e), o.1),
                    Ok(node) => {
                        let s = spec_end_expression(t, o.1);
                        match s.0 {
                            Err(e) => (Err(e), s.1),
                            Ok(_) => (Ok(node), s.1),
                        }
                    },
                }
            },
        }
    }
}

/// `if`, a condition, `then`, a list, optionally `else` and a list, `fi`.
pub open spec fn spec_parse_if(t: Seq<ClassifiedToken>, pos: int) -> Outcome<SpecAST>
    decreases t.len() - pos, 0nat,
{
    let k1 = spec_consume_keyword(t, pos, "if"@);
    if let Err(e) = k1.0 {
        (Err(e), k1.1)
    } else {
        let c = spec_parse_expression(t, pos + 1);
        match c.0 {
            Err(e) => (Err(e), c.1),
            Ok(condition) => {
                let k2 = spec_consume_keyword(t, c.1, "then"@);
                match k2.0 {
                    Err(e) => (Err(e), k2.1),
                    Ok(_) => if k2.1 <= pos {
                        (Err(Seq::empty()), k2.1)
                    } else {
                        let th = spec_parse_program(t, k2.1);
                        match th.0 {
                            Err(e) => (Err(e), th.1),
                            Ok(then_branch) => {
                                let el = if kw_at(t, th.1, "else"@) {
                                    if th.1 + 1 <= pos {
                                        (Err(Seq::empty()), th.1 + 1)
                                    } else {
                                        let b = spec_parse_program(t, th.1 + 1);
                                        match b.0 {
                                            Err(e) => (Err(e), b.1),
                                            Ok(x) => (Ok(Some(Box::new(x))), b.1),
                                        }
                                    }
                                } else {
                                    (Ok(None), th.1)
                                };
                                match el.0 {
                                    Err(e) => (Err(e), el.1),
                                    Ok(else_branch) => {
                                        let k3 = spec_consume_keyword(t, el.1, "fi"@);
                                        match k3.0 {
                                            Err(e) => (Err(e), k3.1),
                                            Ok(_) => (
                                                Ok(
                                                    SpecAST::IfCondition {
                                                        condition: Box::new(condition),
                                                        then_branch: Box::new(then_branch),
                                                        else_branch,
                                                    },
                                                ),
                                                k3.1,
                                            ),
                                        }
                                    },
                                }
                            },
                        }
                    },
                }
            },
        }
    }
}

/// `for`, a name, `in`, values, a separator, `do`, a list, `done`.
pub open spec fn spec_parse_for(t: Seq<ClassifiedToken>, pos: int) -> Outcome<SpecAST>
    decreases t.len() - pos, 0nat,
{
    let k1 = spec_consume_keyword(t, pos, "for"@);
    match k1.0 {
        Err(e) => (Err(e), k1.1),
        Ok(_) => {
            let v = spec_consume_identifier(t, k1.1);
            match v.0 {
                Err(e) => (Err(e), v.1),
                Ok(variable) => {
                    let k2 = spec_consume_keyword(t, v.1, "in"@);
                    match k2.0 {
                        Err(e) => (Err(e), k2.1),
                        Ok(_) => {
                            let vals = value_run(t, k2.1);
                            let s = spec_consume_separator(t, vals.1);
                            match s.0 {
                                Err(e) => (Err(e), s.1),
                                Ok(_) => {
                                    let k3 = spec_consume_keyword(t, s.1, "do"@);
                                    match k3.0 {
                                        Err(e) => (Err(e), k3.1),
                                        Ok(_) => if k3.1 <= pos {
                                            (Err(Seq::empty()), k3.1)
                                        } else {
                                            let b = spec_parse_program(t, k3.1);
                                            match b.0 {
                                                Err(e) => (Err(e), b.1),
                                                Ok(body) => {
                                                    let k4 = spec_consume_keyword(t, b.1, "done"@);
                                                    match k4.0 {
                                                        Err(e) => (Err(e), k4.1),
                                                        Ok(_) => (
                                                            Ok(
                                                                SpecAST::ForLoop {
                                                                    variable,
                                                                    values: vals.0,
                                                                    body: Box::new(body),
                                                                },
                                                            ),
                                                            k4.1,
                                                        ),
                                                    }
                                                },
                                            }
                                        },
                                    }
                                },
                            }
                        },
                    }
                },
            }
        },
    }
}

/// Commands one after the other until the tokens run out or a keyword ends
/// the list.
pub open spec fn spec_program_items(t: Seq<ClassifiedToken>, pos: int) -> Outcome<Seq<SpecAST>>
    decreases t.len() - pos, 2nat,
{
    if 0 <= pos < t.len() {
        let e = spec_parse_expression(t, pos);
        match e.0 {
            Err(x) => (Err(x), e.1),
            Ok(node) => if ends_list(t, e.1) || e.1 <= pos || e.1 > t.len() {
                (Ok(seq![node]), e.1)
            } else {
                let rest = spec_program_items(t, e.1);
                match rest.0 {
                    Err(x) => (Err(x), rest.1),
                    Ok(nodes) => (Ok(seq![node] + nodes), rest.1),
                }
            },
        }
    } else {
        (Ok(Seq::empty()), pos)
    }
}

/// A list of commands: a single command stands for itself, any other number of
/// them makes a sequence.
pub open spec fn spec_parse_program(t: Seq<ClassifiedToken>, pos: int) -> Outcome<SpecAST>
    decreases t.len() - pos, 3nat,
{
    let r = spec_program_items(t, pos);
    match r.0 {
        Err(x) => (Err(x), r.1),
        Ok(nodes) => (
            Ok(
                if nodes.len() == 1 {
                    nodes[0]
                } else {
                    SpecAST::Sequence(nodes)
                },
            ),
            r.1,
        ),
    }
}

pub struct Parser {
    tokens: Vec<Token>,
    position: usize,
}

impl Parser {
    /// The tokens as values.
    pub closed spec fn toks(&self) -> Seq<ClassifiedToken> {
        self.tokens@.map_values(|t: Token| t@)
    }

    /// The position of the next token to read.
    pub closed spec fn at(&self) -> int {
        self.position as int
    }

    pub fn new(tokens: Vec<Token>) -> (r: Parser)
        ensures
            r.toks() == tokens@.map_values(|t: Token| t@),
            r.at() == 0,
    {
        Parser { tokens, position: 0 }
    }

    /// Parses a whole program: commands until the tokens run out.
    pub fn parse(&mut self) -> (r: Result<ASTNode, String>)
        ensures
            final(self).toks() == old(self).toks(),
            (ast_result(r), final(self).at()) == spec_parse_program(old(self).toks(), old(self).at()),
    {
        self.parse_program()
    }

    fn next(&mut self)
        requires
            old(self).position < old(self).tokens.len(),
        ensures
            final(self).tokens == old(self).tokens,
            final(self).position == old(self).position + 1,
    {
        self.position = self.position + 1;
    }

    fn top(&self) -> (r: Option<&Token>)
        ensures
            match r {
                Some(tok) => self.position < self.tokens.len() && *tok == self.tokens@[self.position as int],
                None => self.position >= self.tokens.len(),
            },
    {
        if self.position < self.tokens.len() {
            Some(&self.tokens[self.position])
        } else {
            None
        }
    }

    fn top_is_keyword(&self, kw: &str) -> (r: bool)
        ensures
            r == kw_at(self.toks(), self.at(), kw@),
    {
        match self.top() {
            Some(tok) => tok.is_keyword(kw),
            None => false,
        }
    }

    fn consume_separator(&mut self) -> (r: Result<(), String>)
        ensures
            final(self).tokens == old(self).tokens,
            (match r {
                Ok(_) => Ok(()),
                Err(e) => Err(e@),
            }, final(self).at()) == spec_consume_separator(old(self).toks(), old(self).at()),
    {
        if let Some(Token::Separator(_)) = self.top() {
            self.next();
            Ok(())
        } else {
            Err(owned("Expected an separator"))
        }
    }

    fn end_expression(&mut self) -> (r: Result<(), String>)
        ensures
            final(self).tokens == old(self).tokens,
            (match r {
                Ok(_) => Ok(()),
                Err(e) => Err(e@),
            }, final(self).at()) == spec_end_expression(old(self).toks(), old(self).at()),
    {
        if let Some(Token::Separator(_)) = self.top() {
            self.next();
            return Ok(());
        }
        proof {
            reveal_strlit("then");
            reveal_strlit("else");
            reveal_strlit("fi");
            reveal_strlit("done");
        }
        if self.position >= self.tokens.len() || self.top_is_keyword("then") || self.top_is_keyword(
            "else",
        ) || self.top_is_keyword("fi") || self.top_is_keyword("done") {
            Ok(())
        } else {
            Err(owned("Expected an separator"))
        }
    }

    fn consume_identifier(&mut self) -> (r: Result<String, String>)
        ensures
            final(self).tokens == old(self).tokens,
            (match r {
                Ok(s) => Ok(s@),
                Err(e) => Err(e@),
            }, final(self).at()) == spec_consume_identifier(old(self).toks(), old(self).at()),
    {
        if let Some(Token::Value(id)) = self.top() {
            let identifier = id.clone();
            self.next();
            Ok(identifier)
        } else {
            Err(owned("Expected an identifier"))
        }
    }

    fn consume_keyword(&mut self, keyword: &str) -> (r: Result<(), String>)
        ensures
            final(self).tokens == old(self).tokens,
            (match r {
                Ok(_) => Ok(()),
                Err(e) => Err(e@),
            }, final(self).at()) == spec_consume_keyword(old(self).toks(), old(self).at(), keyword@),
    {
        if self.top_is_keyword(keyword) {
            self.next();
            Ok(())
        } else {
            let mut msg = owned("Expected '");
            push_str(&mut msg, keyword);
            push_str(&mut msg, "'");
            Err(msg)
        }
    }

    fn parse_command(&mut self) -> (r: Result<ASTNode, String>)
        ensures
            final(self).tokens == old(self).tokens,
            (ast_result(r), final(self).at()) == spec_parse_command(old(self).toks(), old(self).at()),
    {
        let ghost t = self.toks();
        let name = match self.top() {
            Some(Token::Command(name)) => name.clone(),
            _ => return Err(owned("Expected a command")),
        };
        self.next();
        let ghost p1 = self.at();
        let mut args: Vec<String> = Vec::new();
        loop
            invariant_except_break
                self.tokens == old(self).tokens,
                t == self.toks(),
                arg_run(t, p1) == (texts(args@) + arg_run(t, self.at()).0, arg_run(t, self.at()).1),
            ensures
                self.tokens == old(self).tokens,
                arg_run(t, p1) == (texts(args@), self.at()),
            decreases self.tokens.len() - self.position,
        {
            let arg = match self.top() {
                Some(Token::Value(a)) => a.clone(),
                Some(Token::IntegerLiteral(a)) => a.clone(),
                Some(Token::FloatLiteral(a)) => a.clone(),
                Some(Token::StringLiteral(a)) => a.clone(),
                _ => {
                    assert(texts(args@) + Seq::<Seq<char>>::empty() =~= texts(args@));
                    break;
                },
            };
            let ghost prev = texts(args@);
            args.push(arg);
            self.next();
            assert(texts(args@) =~= prev.push(arg@));
            assert(texts(args@) + arg_run(t, self.at()).0 =~= prev + (seq![arg@] + arg_run(
                t,
                self.at(),
            ).0));
        }
        Ok(ASTNode::Command { name, args })
    }

    /// Pipes, redirections and logical operators after `left`.
    fn parse_ops(&mut self, left: ASTNode) -> (r: Result<ASTNode, String>)
        ensures
            final(self).tokens == old(self).tokens,
            (ast_result(r), final(self).at()) == spec_parse_ops(
                old(self).toks(),
                old(self).at(),
                left.model(),
            ),
        decreases old(self).tokens.len() - old(self).position,
    {
        let ghost t = self.toks();
        let ghost p0 = self.at();
        let op = match self.top() {
            Some(Token::Operator(op)) => op.clone(),
            _ => return Ok(left),
        };
        if str_equal(op.as_str(), "|") {
            self.next();
            let right = self.parse_command()?;
            proof {
                lemma_parse_command(t, p0 + 1);
            }
            let node = ASTNode::Pipeline { left: Box::new(left), right: Box::new(right) };
            self.parse_ops(node)
        } else if str_equal(op.as_str(), ">") || str_equal(op.as_str(), "<") {
            self.next();
            let file = match self.top() {
                Some(Token::Value(file)) => file.clone(),
                _ => return Err(owned("Expected a file after redirection!")),
            };
            self.next();
            let node = ASTNode::Redirection { command: Box::new(left), file, direction: op };
            self.parse_ops(node)
        } else if str_equal(op.as_str(), "||") || str_equal(op.as_str(), "&&") {
            self.next();
            let right = self.parse_command()?;
            proof {
                lemma_parse_command(t, p0 + 1);
            }
            let node = ASTNode::Logical { left: Box::new(left), right: Box::new(right), operator: op };
            self.parse_ops(node)
        } else {
            Ok(left)
        }
    }

    fn parse_expression(&mut self) -> (r: Result<ASTNode, String>)
        ensures
            final(self).tokens == old(self).tokens,
            (ast_result(r), final(self).at()) == spec_parse_expression(old(self).toks(), old(self).at()),
            old(self).at() <= final(self).at() <= old(self).tokens.len() || old(self).at()
                > old(self).tokens.len(),
            r is Ok ==> old(self).at() < final(self).at(),
        decreases old(self).tokens.len() - old(self).position, 1nat,
    {
        let ghost t = self.toks();
        let ghost p0 = self.at();
        if self.top_is_keyword("for") {
            return self.parse_for_loop();
        }
        if self.top_is_keyword("if") {
            return self.parse_if_statement();
        }
        proof {
            lemma_parse_command(t, p0);
        }
        let left = self.parse_command()?;
        let ghost p1 = self.at();
        proof {
            lemma_parse_ops(t, p1, left.model());
        }
        let node = self.parse_ops(left)?;
        self.end_expression()?;
        Ok(node)
    }

    fn parse_if_statement(&mut self) -> (r: Result<ASTNode, String>)
        requires
            kw_at(old(self).toks(), old(self).at(), "if"@),
        ensures
            final(self).tokens == old(self).tokens,
            (ast_result(r), final(self).at()) == spec_parse_if(old(self).toks(), old(self).at()),
            old(self).at() <= final(self).at() <= old(self).tokens.len(),
            r is Ok ==> old(self).at() < final(self).at(),
        decreases old(self).tokens.len() - old(self).position, 0nat,
    {
        self.consume_keyword("if")?;
        let condition = self.parse_expression()?;
        self.consume_keyword("then")?;
        let then_branch = self.parse_program()?;
        let else_branch = if self.top_is_keyword("else") {
            self.consume_keyword("else")?;
            Some(Box::new(self.parse_program()?))
        } else {
            None
        };
        self.consume_keyword("fi")?;
        Ok(
            ASTNode::IfCondition {
                condition: Box::new(condition),
                then_branch: Box::new(then_branch),
                else_branch,
            },
        )
    }

    fn parse_for_loop(&mut self) -> (r: Result<ASTNode, String>)
        requires
            kw_at(old(self).toks(), old(self).at(), "for"@),
        ensures
            final(self).tokens == old(self).tokens,
            (ast_result(r), final(self).at()) == spec_parse_for(old(self).toks(), old(self).at()),
            old(self).at() <= final(self).at() <= old(self).tokens.len(),
            r is Ok ==> old(self).at() < final(self).at(),
        decreases old(self).tokens.len() - old(self).position, 0nat,
    {
        let ghost t = self.toks();
        self.consume_keyword("for")?;
        let variable = self.consume_identifier()?;
        self.consume_keyword("in")?;
        let ghost p1 = self.at();
        let mut values: Vec<String> = Vec::new();
        loop
            invariant_except_break
                self.tokens == old(self).tokens,
                t == self.toks(),
                value_run(t, p1) == (texts(values@) + value_run(t, self.at()).0, value_run(
                    t,
                    self.at(),
                ).1),
            ensures
                self.tokens == old(self).tokens,
                value_run(t, p1) == (texts(values@), self.at()),
            decreases self.tokens.len() - self.position,
        {
            let value = match self.top() {
                Some(Token::Value(v)) => v.clone(),
                _ => {
                    assert(texts(values@) + Seq::<Seq<char>>::empty() =~= texts(values@));
                    break;
                },
            };
            let ghost prev = texts(values@);
            values.push(value);
            self.next();
            assert(texts(values@) =~= prev.push(value@));
            assert(texts(values@) + value_run(t, self.at()).0 =~= prev + (seq![value@]
                + value_run(t, self.at()).0));
        }
        proof {
            lemma_value_run(t, p1);
        }
        self.consume_separator()?;
        self.consume_keyword("do")?;
        let body = self.parse_program()?;
        self.consume_keyword("done")?;
        Ok(ASTNode::ForLoop { variable, values, body: Box::new(body) })
    }

    fn parse_program(&mut self) -> (r: Result<ASTNode, String>)
        ensures
            final(self).tokens == old(self).tokens,
            (ast_result(r), final(self).at()) == spec_parse_program(old(self).toks(), old(self).at()),
            old(self).at() <= final(self).at() <= old(self).tokens.len() || old(self).at()
                > old(self).tokens.len(),
        decreases old(self).tokens.len() - old(self).position, 3nat,
    {
        let ghost t = self.toks();
        let ghost p0 = self.at();
        let mut commands: Vec<ASTNode> = Vec::new();
        while self.position < self.tokens.len()
            invariant_except_break
                self.tokens == old(self).tokens,
                t == self.toks(),
                p0 <= self.at(),
                p0 == old(self).at(),
                self.at() <= self.tokens.len() || self.at() == p0,
                spec_program_items(t, p0) == prepend(commands.deep_view(), spec_program_items(t, self.at())),
            ensures
                self.tokens == old(self).tokens,
                p0 <= self.at(),
                self.at() <= self.tokens.len() || self.at() == p0,
                spec_program_items(t, p0) == (Ok::<Seq<SpecAST>, Seq<char>>(commands.deep_view()), self.at()),
            decreases self.tokens.len() - self.position,
        {
            let ghost before = self.at();
            let node = match self.parse_expression() {
                Ok(n) => n,
                Err(e) => return Err(e),
            };
            let ghost prev = commands.deep_view();
            let ghost nm = node.model();
            commands.push(node);
            assert(commands.deep_view() =~= prev.push(nm));
            proof {
                lemma_prepend_push(prev, nm, spec_program_items(t, self.at()));
            }
            if self.top_is_keyword("done") || self.top_is_keyword("fi") || self.top_is_keyword("else") {
                assert(prev + seq![nm] =~= prev.push(nm));
                break;
            }
        }
        proof {
            if self.at() >= self.tokens.len() {
                assert(commands.deep_view() + Seq::<SpecAST>::empty() =~= commands.deep_view());
            }
        }
        let ghost d = commands.deep_view();
        let ghost commands_snapshot = commands@;
        if commands.len() == 1 {
            assert(d[0] == commands@[0].model());
            let x = commands.pop().unwrap();
            assert(x.model() == d[0]);
            assert(spec_parse_program(t, p0).0 == Ok::<SpecAST, Seq<char>>(d[0]));
            Ok(x)
        } else {
            let res = ASTNode::Sequence(commands);
            assert(res.model()->Sequence_0.len() == d.len());
            assert forall|i: int| 0 <= i < d.len() implies res.model()->Sequence_0[i] == d[i] by {
                assert(d[i] == commands_snapshot[i].deep_view());
            }
            assert(res.model()->Sequence_0 =~= d);
            assert(res.model() == SpecAST::Sequence(d));
            assert(spec_parse_program(t, p0).0 == Ok::<SpecAST, Seq<char>>(SpecAST::Sequence(d)));
            Ok(res)
        }
    }
}

pub proof fn lemma_prepend_push(prev: Seq<SpecAST>, x: SpecAST, r: Outcome<Seq<SpecAST>>)
    ensures
        prepend(prev, prepend(seq![x], r)) == prepend(prev.push(x), r),
{
    if let Ok(nodes) = r.0 {
        assert(prev + (seq![x] + nodes) =~= prev.push(x) + nodes);
    }
}

/// A result with `prefix` put in front of the nodes of a success.
pub open spec fn prepend(prefix: Seq<SpecAST>, r: Outcome<Seq<SpecAST>>) -> Outcome<Seq<SpecAST>> {
    (
        match r.0 {
            Ok(nodes) => Ok(prefix + nodes),
            Err(e) => Err(e),
        },
        r.1,
    )
}

} // verus!
