use vstd::prelude::*;

use crate::parser::elif_view;
use crate::parser::elifs_view_from;
use crate::parser::lemma_elifs_view_from;
use crate::parser::lemma_stmts_view_from;
use crate::parser::stmt_view;
use crate::parser::stmts_view_from;
use crate::parser::ElifArm;
use crate::parser::ElifArmV;
use crate::parser::Expr;
use crate::parser::ExprV;
use crate::parser::LetValue;
use crate::parser::LetValueV;
use crate::parser::ParseNode;
use crate::parser::StmtV;
use crate::transpile::op_text;
use crate::transpile::push_op;
use vstd::string::StringExecFns;

verus! {

/// One tab per nesting depth: the indentation of the parenthesized dump.
pub open spec fn tabs(level: nat) -> Seq<char>
    decreases level,
{
    if level == 0 {
        Seq::empty()
    } else {
        tabs((level - 1) as nat).push('\t')
    }
}

/// The separator between two children of one node: a newline, then the
/// parent's indentation.
pub open spec fn sexp_sep(level: nat) -> Seq<char> {
    "\n"@ + tabs(level)
}

/// Joins two rendered children with the separator of the given level; an
/// empty side vanishes.
pub open spec fn sexp_glue(x: Seq<char>, y: Seq<char>, level: nat) -> Seq<char> {
    if x.len() == 0 {
        y
    } else if y.len() == 0 {
        x
    } else {
        x + sexp_sep(level) + y
    }
}

/// The rendering of a condition subtree: it hangs off its node's tag, one
/// tab in, in parentheses of its own.
pub open spec fn sexp_aux(c: ExprV, level: nat) -> Seq<char> {
    "\n\t("@ + sexp_expr(c, (level + 1) as nat) + ")"@
}

/// The parenthesized dump of an expression. Leaves render as their token's
/// textual form; an operator node opens a parenthesis, names its operator,
/// and lists its operands one per line, one level deeper.
pub open spec fn sexp_expr(e: ExprV, level: nat) -> Seq<char>
    decreases e,
{
    match e {
        ExprV::Number(s) => "Number("@ + s + ")"@,
        ExprV::Identifier(s) => "Identifier("@ + s + ")"@,
        ExprV::Unary(op, e1) => "(Operator("@ + op_text(op) + ") \n"@ + tabs(level) + sexp_expr(
            *e1,
            (level + 1) as nat,
        ) + ")"@,
        ExprV::Binary(op, l, r) => "(Operator("@ + op_text(op) + ") \n"@ + tabs(level) + sexp_expr(
            *l,
            (level + 1) as nat,
        ) + sexp_sep(level) + sexp_expr(*r, (level + 1) as nat) + ")"@,
    }
}

/// The parenthesized dump of one statement. A block statement whose child
/// list is empty renders as its bare tag, as a leaf does.
pub open spec fn sexp_stmt(s: StmtV, level: nat) -> Seq<char>
    decreases s, 2int, 0int,
{
    match s {
        StmtV::Let { name, value } => "(Let \n"@ + tabs(level) + "Identifier("@ + name + ")"@
            + sexp_sep(level) + (match value {
            LetValueV::Str(t) => "StringLiteral("@ + t + ")"@,
            LetValueV::Expr(e) => sexp_expr(e, (level + 1) as nat),
        }) + ")"@,
        StmtV::Print(e) => "(Print \n"@ + tabs(level) + sexp_expr(e, (level + 1) as nat) + ")"@,
        StmtV::While { cond, body } => if body.len() == 0 {
            "While"@
        } else {
            "(While"@ + sexp_aux(cond, level) + "\n"@ + tabs(level) + sexp_stmts(body, 0, level)
                + ")"@
        },
        StmtV::If { cond, body, elifs, else_body } => if body.len() == 0 && elifs.len() == 0
            && else_body is None {
            "If"@
        } else {
            "(If"@ + sexp_aux(cond, level) + "\n"@ + tabs(level) + sexp_glue(
                sexp_glue(sexp_stmts(body, 0, level), sexp_elifs(elifs, 0, level), level),
                match else_body {
                    Some(b) => sexp_else(b, (level + 1) as nat),
                    None => Seq::empty(),
                },
                level,
            ) + ")"@
        },
    }
}

/// The dumps of the statements from position `i` on, each one level deeper
/// than the parent, joined by the parent's separator.
pub open spec fn sexp_stmts(ss: Seq<StmtV>, i: int, level: nat) -> Seq<char>
    decreases ss, 1int, ss.len() - i,
{
    if 0 <= i < ss.len() {
        sexp_glue(
            sexp_stmt(ss[i], (level + 1) as nat),
            sexp_stmts(ss, i + 1, level),
            level,
        )
    } else {
        Seq::empty()
    }
}

/// The dump of one `elif` arm; with an empty body it renders as its bare tag.
pub open spec fn sexp_elif(a: ElifArmV, level: nat) -> Seq<char>
    decreases a, 2int, 0int,
{
    if a.body.len() == 0 {
        "Elif"@
    } else {
        "(Elif"@ + sexp_aux(a.cond, level) + "\n"@ + tabs(level) + sexp_stmts(a.body, 0, level)
            + ")"@
    }
}

/// The dumps of the `elif` arms from position `i` on, each one level deeper
/// than the `if`, joined by the `if`'s separator.
pub open spec fn sexp_elifs(es: Seq<ElifArmV>, i: int, level: nat) -> Seq<char>
    decreases es, 1int, es.len() - i,
{
    if 0 <= i < es.len() {
        sexp_glue(
            sexp_elif(es[i], (level + 1) as nat),
            sexp_elifs(es, i + 1, level),
            level,
        )
    } else {
        Seq::empty()
    }
}

/// The dump of an `else` block; with an empty body it renders as its bare tag.
pub open spec fn sexp_else(b: Seq<StmtV>, level: nat) -> Seq<char>
    decreases b, 2int, 0int,
{
    if b.len() == 0 {
        "Else"@
    } else {
        "(Else \n"@ + tabs(level) + sexp_stmts(b, 0, level) + ")"@
    }
}

fn sexp_glue_exec(x: String, y: String, tabs_s: &String, Ghost(level): Ghost<nat>) -> (r: String)
    requires
        tabs_s@ == tabs(level),
    ensures
        r@ == sexp_glue(x@, y@, level),
{
    if x.as_str().is_empty() {
        y
    } else if y.as_str().is_empty() {
        x
    } else {
        let ghost x0 = x@;
        let mut x = x;
        x.append("\n");
        x.append(tabs_s.as_str());
        proof {
            assert(x@ =~= x0 + sexp_sep(level));
        }
        x.append(y.as_str());
        x
    }
}

fn sexp_expr_exec(e: &Expr, tabs_s: &String, Ghost(level): Ghost<nat>) -> (r: String)
    requires
        tabs_s@ == tabs(level),
    ensures
        r@ == sexp_expr(crate::parser::expr_view(*e), level),
    decreases e,
{
    match e {
        Expr::Number(s) => {
            let mut out = String::from_str("Number(");
            out.append(s.as_str());
            out.append(")");
            out
        },
        Expr::Identifier(s) => {
            let mut out = String::from_str("Identifier(");
            out.append(s.as_str());
            out.append(")");
            out
        },
        Expr::Unary(op, e1) => {
            let mut tb2 = tabs_s.clone();
            tb2.push('\t');
            let mut out = String::from_str("(Operator(");
            push_op(&mut out, *op);
            out.append(") \n");
            out.append(tabs_s.as_str());
            let sub = sexp_expr_exec(e1, &tb2, Ghost((level + 1) as nat));
            out.append(sub.as_str());
            out.append(")");
            out
        },
        Expr::Binary(op, l, r_) => {
            let mut tb2 = tabs_s.clone();
            tb2.push('\t');
            let mut out = String::from_str("(Operator(");
            push_op(&mut out, *op);
            out.append(") \n");
            out.append(tabs_s.as_str());
            let lt = sexp_expr_exec(l, &tb2, Ghost((level + 1) as nat));
            out.append(lt.as_str());
            let ghost mid = out@;
            out.append("\n");
            out.append(tabs_s.as_str());
            proof {
                assert(out@ =~= mid + sexp_sep(level));
            }
            let rt = sexp_expr_exec(r_, &tb2, Ghost((level + 1) as nat));
            out.append(rt.as_str());
            out.append(")");
            out
        },
    }
}

fn sexp_stmt_exec(n: &ParseNode, tabs_s: &String, Ghost(level): Ghost<nat>) -> (r: String)
    requires
        tabs_s@ == tabs(level),
    ensures
        r@ == sexp_stmt(stmt_view(*n), level),
    decreases n, 2int, 0int,
{
    match n {
        ParseNode::Let { name, value } => {
            let mut out = String::from_str("(Let \n");
            out.append(tabs_s.as_str());
            out.append("Identifier(");
            out.append(name.as_str());
            out.append(")");
            let ghost mid = out@;
            out.append("\n");
            out.append(tabs_s.as_str());
            proof {
                assert(out@ =~= mid + sexp_sep(level));
            }
            match value {
                LetValue::Str(t) => {
                    out.append("StringLiteral(");
                    out.append(t.as_str());
                    out.append(")");
                },
                LetValue::Expr(e) => {
                    let mut tb2 = tabs_s.clone();
                    tb2.push('\t');
                    let et = sexp_expr_exec(e, &tb2, Ghost((level + 1) as nat));
                    out.append(et.as_str());
                },
            }
            out.append(")");
            out
        },
        ParseNode::Print(e) => {
            let mut tb2 = tabs_s.clone();
            tb2.push('\t');
            let mut out = String::from_str("(Print \n");
            out.append(tabs_s.as_str());
            let et = sexp_expr_exec(e, &tb2, Ghost((level + 1) as nat));
            out.append(et.as_str());
            out.append(")");
            out
        },
        ParseNode::While { cond, body } => {
            proof {
                lemma_stmts_view_from(*body, 0);
            }
            if body.len() == 0 {
                String::from_str("While")
            } else {
                let mut tb2 = tabs_s.clone();
                tb2.push('\t');
                let mut out = String::from_str("(While");
                out.append("\n\t(");
                let ct = sexp_expr_exec(cond, &tb2, Ghost((level + 1) as nat));
                out.append(ct.as_str());
                out.append(")");
                proof {
                    assert(out@ =~= "(While"@ + sexp_aux(crate::parser::expr_view(*cond), level));
                }
                out.append("\n");
                out.append(tabs_s.as_str());
                let bt = sexp_stmts_exec(body, 0, tabs_s, Ghost(level));
                out.append(bt.as_str());
                out.append(")");
                out
            }
        },
        ParseNode::If { cond, body, elifs, else_body } => {
            proof {
                lemma_stmts_view_from(*body, 0);
                lemma_elifs_view_from(*elifs, 0);
            }
            let no_children = body.len() == 0 && elifs.len() == 0 && (match else_body {
                Some(_) => false,
                None => true,
            });
            if no_children {
                String::from_str("If")
            } else {
                let mut tb2 = tabs_s.clone();
                tb2.push('\t');
                let mut out = String::from_str("(If");
                out.append("\n\t(");
                let ct = sexp_expr_exec(cond, &tb2, Ghost((level + 1) as nat));
                out.append(ct.as_str());
                out.append(")");
                proof {
                    assert(out@ =~= "(If"@ + sexp_aux(crate::parser::expr_view(*cond), level));
                }
                out.append("\n");
                out.append(tabs_s.as_str());
                let bt = sexp_stmts_exec(body, 0, tabs_s, Ghost(level));
                let et = sexp_elifs_exec(elifs, 0, tabs_s, Ghost(level));
                let else_t = match else_body {
                    Some(b) => sexp_else_exec(b, &tb2, Ghost((level + 1) as nat)),
                    None => String::new(),
                };
                let tail = sexp_glue_exec(
                    sexp_glue_exec(bt, et, tabs_s, Ghost(level)),
                    else_t,
                    tabs_s,
                    Ghost(level),
                );
                out.append(tail.as_str());
                out.append(")");
                out
            }
        },
    }
}

fn sexp_stmts_exec(v: &Vec<ParseNode>, i: usize, tabs_s: &String, Ghost(level): Ghost<nat>) -> (r:
    String)
    requires
        tabs_s@ == tabs(level),
    ensures
        r@ == sexp_stmts(stmts_view_from(*v, 0), i as int, level),
    decreases v, 1int, v@.len() - i,
{
    proof {
        lemma_stmts_view_from(*v, 0);
    }
    if i >= v.len() {
        String::new()
    } else {
        let mut tb2 = tabs_s.clone();
        tb2.push('\t');
        let head = sexp_stmt_exec(&v[i], &tb2, Ghost((level + 1) as nat));
        let tail = sexp_stmts_exec(v, i + 1, tabs_s, Ghost(level));
        sexp_glue_exec(head, tail, tabs_s, Ghost(level))
    }
}

fn sexp_elifs_exec(v: &Vec<ElifArm>, i: usize, tabs_s: &String, Ghost(level): Ghost<nat>) -> (r:
    String)
    requires
        tabs_s@ == tabs(level),
    ensures
        r@ == sexp_elifs(elifs_view_from(*v, 0), i as int, level),
    decreases v, 1int, v@.len() - i,
{
    proof {
        lemma_elifs_view_from(*v, 0);
    }
    if i >= v.len() {
        String::new()
    } else {
        let arm = &v[i];
        let mut tb2 = tabs_s.clone();
        tb2.push('\t');
        proof {
            lemma_stmts_view_from(v@[i as int].body, 0);
        }
        let head = if arm.body.len() == 0 {
            String::from_str("Elif")
        } else {
            let mut tb3 = tb2.clone();
            tb3.push('\t');
            proof {
                assert(tb2@ == tabs((level + 1) as nat));
                assert(tb3@ == tabs((level + 2) as nat));
            }
            let mut out = String::from_str("(Elif");
            out.append("\n\t(");
            let ct = sexp_expr_exec(&arm.cond, &tb3, Ghost((level + 2) as nat));
            out.append(ct.as_str());
            out.append(")");
            proof {
                assert(out@ =~= "(Elif"@ + sexp_aux(
                    crate::parser::expr_view(v@[i as int].cond),
                    (level + 1) as nat,
                ));
            }
            out.append("\n");
            out.append(tb2.as_str());
            let bt = sexp_stmts_exec(&arm.body, 0, &tb2, Ghost((level + 1) as nat));
            out.append(bt.as_str());
            out.append(")");
            out
        };
        proof {
            assert(elifs_view_from(*v, 0)[i as int] == elif_view(v@[i as int]));
            assert(head@ == sexp_elif(elif_view(v@[i as int]), (level + 1) as nat));
        }
        let tail = sexp_elifs_exec(v, i + 1, tabs_s, Ghost(level));
        sexp_glue_exec(head, tail, tabs_s, Ghost(level))
    }
}

fn sexp_else_exec(v: &Vec<ParseNode>, tabs_s: &String, Ghost(level): Ghost<nat>) -> (r: String)
    requires
        tabs_s@ == tabs(level),
    ensures
        r@ == sexp_else(stmts_view_from(*v, 0), level),
    decreases v, 2int, 0int,
{
    proof {
        lemma_stmts_view_from(*v, 0);
    }
    if v.len() == 0 {
        String::from_str("Else")
    } else {
        let mut out = String::from_str("(Else \n");
        out.append(tabs_s.as_str());
        let bt = sexp_stmts_exec(v, 0, tabs_s, Ghost(level));
        out.append(bt.as_str());
        out.append(")");
        out
    }
}

/// The pipeline's observable outcome on a source text: the lexer's fatal
/// failure, the parser's failure message, or the debug dumps of the parsed
/// statements, one per statement, in order.
pub ghost enum PipelineOut {
    LexFailure,
    ParseFailure(Seq<char>),
    Dumps(Seq<Seq<char>>),
}

/// The whole pipeline on a source text: lex it, parse the tokens, and dump
/// each parsed statement at depth zero.
pub open spec fn pipeline_spec(source: Seq<char>) -> PipelineOut {
    match crate::lexer::lex_spec(source) {
        None => PipelineOut::LexFailure,
        Some((toks, warns)) => match crate::parser::parse_spec(toks) {
            crate::parser::ProgOut::Fail(m) => PipelineOut::ParseFailure(m),
            crate::parser::ProgOut::Parsed { stmts, warns: pw } => PipelineOut::Dumps(
                Seq::new(stmts.len(), |i: int| sexp_stmt(stmts[i], 0)),
            ),
        },
    }
}

/// Re-running the whole pipeline on one source text yields the same dump:
/// lexing, parsing and the debug printer are functions of the source alone,
/// and no hidden nondeterminism (such as an iteration order over the scope
/// set) can reach the output.
pub proof fn lemma_pipeline_deterministic(
    s1: Seq<char>,
    s2: Seq<char>,
    r1: PipelineOut,
    r2: PipelineOut,
)
    requires
        s1 == s2,
        r1 == pipeline_spec(s1),
        r2 == pipeline_spec(s2),
    ensures
        r1 == r2,
{
}

/// The fully parenthesized textual dump of one statement at the given
/// nesting depth: leaves render as their token's textual form, internal nodes
/// as their tag, their condition subtree if any, and their children one per
/// line, indented one tab per depth.
pub fn get_sexp(parse_node: &ParseNode, level: usize) -> (r: String)
    ensures
        r@ == sexp_stmt(stmt_view(*parse_node), level as nat),
{
    let mut t = String::new();
    let mut k: usize = 0;
    while k < level
        invariant
            k <= level,
            t@ == tabs(k as nat),
        decreases level - k,
    {
        t.push('\t');
        k = k + 1;
    }
    sexp_stmt_exec(parse_node, &t, Ghost(level as nat))
}

} // verus!
