use vstd::prelude::*;

use crate::lexer::Operator;
use crate::parser::elif_view;
use crate::parser::elifs_view_from;
use crate::parser::lemma_elifs_view_from;
use crate::parser::lemma_stmts_view_from;
use crate::parser::stmt_view;
use crate::parser::stmts_view;
use crate::parser::stmts_view_from;
use crate::parser::ElifArm;
use crate::parser::ElifArmV;
use crate::parser::Expr;
use crate::parser::ExprV;
use crate::parser::LetValueV;
use crate::parser::ParseNode;
use crate::parser::StmtV;
use vstd::string::StringExecFns;

verus! {

/// The source symbol of an operator.
pub open spec fn op_text(op: Operator) -> Seq<char> {
    match op {
        Operator::Plus => "+"@,
        Operator::Minus => "-"@,
        Operator::Multiply => "*"@,
        Operator::Divide => "/"@,
        Operator::Equal => "="@,
        Operator::LessThan => "<"@,
        Operator::LessThanEqual => "<="@,
        Operator::GreaterThan => ">"@,
        Operator::GreaterThanEqual => ">="@,
        Operator::Equality => "=="@,
    }
}

/// Appends the operator's source symbol.
pub(crate) fn push_op(s: &mut String, op: Operator)
    ensures
        final(s)@ == old(s)@ + op_text(op),
{
    match op {
        Operator::Plus => s.append("+"),
        Operator::Minus => s.append("-"),
        Operator::Multiply => s.append("*"),
        Operator::Divide => s.append("/"),
        Operator::Equal => s.append("="),
        Operator::LessThan => s.append("<"),
        Operator::LessThanEqual => s.append("<="),
        Operator::GreaterThan => s.append(">"),
        Operator::GreaterThanEqual => s.append(">="),
        Operator::Equality => s.append("=="),
    }
}

/// One space per nesting level: the indentation of the emitted line.
pub open spec fn indent(level: nat) -> Seq<char>
    decreases level,
{
    if level == 0 {
        Seq::empty()
    } else {
        indent((level - 1) as nat).push(' ')
    }
}

/// The text of an expression: leaves are their own text, a prefix operator
/// stands right before its operand, and an infix operator stands between its
/// operands with one space on each side. No parentheses are reinserted:
/// precedence is already baked into the tree shape.
pub open spec fn emit_expr(e: ExprV) -> Seq<char>
    decreases e,
{
    match e {
        ExprV::Number(s) => s,
        ExprV::Identifier(s) => s,
        ExprV::Unary(op, e1) => op_text(op) + emit_expr(*e1),
        ExprV::Binary(op, l, r) => emit_expr(*l) + " "@ + op_text(op) + " "@ + emit_expr(*r),
    }
}

/// Joins two rendered pieces with a newline; an empty side vanishes, so
/// joining all pieces this way equals joining the nonempty ones with `\n`.
pub open spec fn glue(x: Seq<char>, y: Seq<char>) -> Seq<char> {
    if x.len() == 0 {
        y
    } else if y.len() == 0 {
        x
    } else {
        x + "\n"@ + y
    }
}

/// The text of one statement at the given nesting level.
///
/// `let` lowers to an assignment line; `print` to a call line; `while` and
/// `if` to a header line ending in a colon, followed by their bodies one
/// level deeper, with `elif` and `else` headers back at the header's level.
pub open spec fn emit_stmt(s: StmtV, level: nat) -> Seq<char>
    decreases s, 3int, 0int,
{
    match s {
        StmtV::Let { name, value } => indent(level) + name + " = "@ + (match value {
            LetValueV::Str(t) => t,
            LetValueV::Expr(e) => emit_expr(e),
        }),
        StmtV::Print(e) => indent(level) + "print("@ + emit_expr(e) + ")"@,
        StmtV::While { cond, body } => indent(level) + "while "@ + emit_expr(cond) + ":\n"@
            + emit_stmts(body, 0, (level + 1) as nat),
        StmtV::If { cond, body, elifs, else_body } => indent(level) + "if "@ + emit_expr(cond)
            + ":\n"@ + glue(
            glue(emit_stmts(body, 0, (level + 1) as nat), emit_elifs(elifs, 0, level)),
            match else_body {
                Some(b) => indent(level) + "else:\n"@ + emit_stmts(b, 0, (level + 1) as nat),
                None => Seq::empty(),
            },
        ),
    }
}

/// The texts of the statements from position `i` on, joined by newlines.
pub open spec fn emit_stmts(ss: Seq<StmtV>, i: int, level: nat) -> Seq<char>
    decreases ss, 4int, ss.len() - i,
{
    if 0 <= i < ss.len() {
        glue(emit_stmt(ss[i], level), emit_stmts(ss, i + 1, level))
    } else {
        Seq::empty()
    }
}

/// The text of one `elif` arm: its header at the `if`'s level, its body one
/// level deeper.
pub open spec fn emit_elif(a: ElifArmV, level: nat) -> Seq<char>
    decreases a, 3int, 0int,
{
    indent(level) + "elif "@ + emit_expr(a.cond) + ":\n"@ + emit_stmts(a.body, 0, (level + 1) as nat)
}

/// The texts of the `elif` arms from position `i` on, joined by newlines.
pub open spec fn emit_elifs(es: Seq<ElifArmV>, i: int, level: nat) -> Seq<char>
    decreases es, 4int, es.len() - i,
{
    if 0 <= i < es.len() {
        glue(emit_elif(es[i], level), emit_elifs(es, i + 1, level))
    } else {
        Seq::empty()
    }
}

/// The text of a whole program: its statements at nesting level zero, joined
/// by newlines, in order.
pub open spec fn emit_prog(ss: Seq<StmtV>) -> Seq<char> {
    emit_stmts(ss, 0, 0)
}

fn glue_exec(x: String, y: String) -> (r: String)
    ensures
        r@ == glue(x@, y@),
{
    if x.as_str().is_empty() {
        y
    } else if y.as_str().is_empty() {
        x
    } else {
        let mut x = x;
        x.append("\n");
        x.append(y.as_str());
        x
    }
}

fn emit_expr_exec(e: &Expr) -> (r: String)
    ensures
        r@ == emit_expr(crate::parser::expr_view(*e)),
    decreases e,
{
    match e {
        Expr::Number(s) => s.clone(),
        Expr::Identifier(s) => s.clone(),
        Expr::Unary(op, e1) => {
            let mut out = String::new();
            push_op(&mut out, *op);
            let sub = emit_expr_exec(e1);
            out.append(sub.as_str());
            out
        },
        Expr::Binary(op, l, r_) => {
            let mut out = emit_expr_exec(l);
            out.append(" ");
            push_op(&mut out, *op);
            out.append(" ");
            let rr = emit_expr_exec(r_);
            out.append(rr.as_str());
            out
        },
    }
}

fn emit_stmt_exec(n: &ParseNode, ind: &String, Ghost(level): Ghost<nat>) -> (r: String)
    requires
        ind@ == indent(level),
    ensures
        r@ == emit_stmt(stmt_view(*n), level),
    decreases n, 3int, 0int,
{
    match n {
        ParseNode::Let { name, value } => {
            let mut out = ind.clone();
            out.append(name.as_str());
            out.append(" = ");
            match value {
                crate::parser::LetValue::Str(t) => {
                    out.append(t.as_str());
                },
                crate::parser::LetValue::Expr(e) => {
                    let ev = emit_expr_exec(e);
                    out.append(ev.as_str());
                },
            }
            out
        },
        ParseNode::Print(e) => {
            let mut out = ind.clone();
            out.append("print(");
            let ev = emit_expr_exec(e);
            out.append(ev.as_str());
            out.append(")");
            out
        },
        ParseNode::While { cond, body } => {
            let mut out = ind.clone();
            out.append("while ");
            let cv = emit_expr_exec(cond);
            out.append(cv.as_str());
            out.append(":\n");
            let mut ind2 = ind.clone();
            ind2.push(' ');
            let bt = emit_stmts_exec(body, 0, &ind2, Ghost((level + 1) as nat));
            out.append(bt.as_str());
            out
        },
        ParseNode::If { cond, body, elifs, else_body } => {
            let mut out = ind.clone();
            out.append("if ");
            let cv = emit_expr_exec(cond);
            out.append(cv.as_str());
            out.append(":\n");
            let mut ind2 = ind.clone();
            ind2.push(' ');
            let bt = emit_stmts_exec(body, 0, &ind2, Ghost((level + 1) as nat));
            let et = emit_elifs_exec(elifs, 0, ind, Ghost(level));
            let else_t = match else_body {
                Some(b) => {
                    let mut eo = ind.clone();
                    eo.append("else:\n");
                    let ebt = emit_stmts_exec(b, 0, &ind2, Ghost((level + 1) as nat));
                    eo.append(ebt.as_str());
                    eo
                },
                None => String::new(),
            };
            let tail = glue_exec(glue_exec(bt, et), else_t);
            out.append(tail.as_str());
            out
        },
    }
}

fn emit_stmts_exec(v: &Vec<ParseNode>, i: usize, ind: &String, Ghost(level): Ghost<nat>) -> (r:
    String)
    requires
        ind@ == indent(level),
    ensures
        r@ == emit_stmts(stmts_view_from(*v, 0), i as int, level),
    decreases v, 4int, v@.len() - i,
{
    proof {
        lemma_stmts_view_from(*v, 0);
    }
    if i >= v.len() {
        String::new()
    } else {
        let head = emit_stmt_exec(&v[i], ind, Ghost(level));
        let tail = emit_stmts_exec(v, i + 1, ind, Ghost(level));
        glue_exec(head, tail)
    }
}

fn emit_elifs_exec(v: &Vec<ElifArm>, i: usize, ind: &String, Ghost(level): Ghost<nat>) -> (r:
    String)
    requires
        ind@ == indent(level),
    ensures
        r@ == emit_elifs(elifs_view_from(*v, 0), i as int, level),
    decreases v, 4int, v@.len() - i,
{
    proof {
        lemma_elifs_view_from(*v, 0);
    }
    if i >= v.len() {
        String::new()
    } else {
        let arm = &v[i];
        let mut out = ind.clone();
        out.append("elif ");
        let cv = emit_expr_exec(&arm.cond);
        out.append(cv.as_str());
        out.append(":\n");
        let mut ind2 = ind.clone();
        ind2.push(' ');
        let bt = emit_stmts_exec(&arm.body, 0, &ind2, Ghost((level + 1) as nat));
        out.append(bt.as_str());
        proof {
            assert(elifs_view_from(*v, 0)[i as int] == elif_view(v@[i as int]));
            assert(out@ == emit_elif(elif_view(v@[i as int]), level));
        }
        let tail = emit_elifs_exec(v, i + 1, ind, Ghost(level));
        glue_exec(out, tail)
    }
}

/// The emitter: it lowers a parsed statement list to target-language source
/// text, one pass, preserving statement order.
pub struct Transpiler {
    nodes: Vec<ParseNode>,
}

impl View for Transpiler {
    type V = Seq<StmtV>;

    closed spec fn view(&self) -> Seq<StmtV> {
        stmts_view_from(self.nodes, 0)
    }
}

impl Transpiler {
    /// Makes an emitter over the given statement list.
    pub fn new(nodes: Vec<ParseNode>) -> (t: Transpiler)
        ensures
            t@ == stmts_view(nodes),
    {
        Transpiler { nodes }
    }

    /// Lowers the whole statement list. Emission is total over the sum-type
    /// tree, so this always succeeds, and the text is exactly `emit_prog` of
    /// the statements' models.
    pub fn transpile(&self) -> (r: Result<String, String>)
        ensures
            r matches Ok(s) && s@ == emit_prog(self@),
    {
        let ind = String::new();
        let out = emit_stmts_exec(&self.nodes, 0, &ind, Ghost(0nat));
        Ok(out)
    }
}

} // verus!
