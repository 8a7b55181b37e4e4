use vstd::prelude::*;

use crate::lexer::clamp_pos;
use crate::lexer::toks_view;
use crate::lexer::Operator;
use crate::lexer::Token;
use crate::lexer::TokenType;
use crate::lexer::TokenTypeV;
use crate::lexer::TokenV;

verus! {

broadcast use vstd::seq::axiom_seq_index_decreases;

/// An expression: a leaf (number or identifier), a prefix operator applied
/// to one operand, or an infix operator applied to two operands.
#[derive(Debug, PartialEq)]
pub enum Expr {
    Number(String),
    Identifier(String),
    Unary(Operator, Box<Expr>),
    Binary(Operator, Box<Expr>, Box<Expr>),
}

/// The value bound by a `let`: either a string literal or an expression.
#[derive(Debug, PartialEq)]
pub enum LetValue {
    Str(String),
    Expr(Expr),
}

/// One `elif` arm of an `if` statement: its condition and its body.
#[derive(Debug, PartialEq)]
pub struct ElifArm {
    pub cond: Expr,
    pub body: Vec<ParseNode>,
}

/// One statement of the language, as a closed sum over the statement kinds.
#[derive(Debug, PartialEq)]
pub enum ParseNode {
    Let { name: String, value: LetValue },
    Print(Expr),
    While { cond: Expr, body: Vec<ParseNode> },
    If { cond: Expr, body: Vec<ParseNode>, elifs: Vec<ElifArm>, else_body: Option<Vec<ParseNode>> },
}

/// Mathematical model of an expression; strings are sequences of characters.
pub ghost enum ExprV {
    Number(Seq<char>),
    Identifier(Seq<char>),
    Unary(Operator, Box<ExprV>),
    Binary(Operator, Box<ExprV>, Box<ExprV>),
}

/// Mathematical model of a `let` value.
pub ghost enum LetValueV {
    Str(Seq<char>),
    Expr(ExprV),
}

/// Mathematical model of an `elif` arm.
pub ghost struct ElifArmV {
    pub cond: ExprV,
    pub body: Seq<StmtV>,
}

/// Mathematical model of a statement.
pub ghost enum StmtV {
    Let { name: Seq<char>, value: LetValueV },
    Print(ExprV),
    While { cond: ExprV, body: Seq<StmtV> },
    If { cond: ExprV, body: Seq<StmtV>, elifs: Seq<ElifArmV>, else_body: Option<Seq<StmtV>> },
}

/// The model of an expression.
pub open spec fn expr_view(e: Expr) -> ExprV
    decreases e,
{
    match e {
        Expr::Number(s) => ExprV::Number(s@),
        Expr::Identifier(s) => ExprV::Identifier(s@),
        Expr::Unary(op, e1) => ExprV::Unary(op, Box::new(expr_view(*e1))),
        Expr::Binary(op, l, r) => ExprV::Binary(op, Box::new(expr_view(*l)), Box::new(expr_view(*r))),
    }
}

/// The model of a statement.
pub open spec fn stmt_view(n: ParseNode) -> StmtV
    decreases n, 0int, 0int,
{
    match n {
        ParseNode::Let { name, value } => StmtV::Let {
            name: name@,
            value: match value {
                LetValue::Str(s) => LetValueV::Str(s@),
                LetValue::Expr(e) => LetValueV::Expr(expr_view(e)),
            },
        },
        ParseNode::Print(e) => StmtV::Print(expr_view(e)),
        ParseNode::While { cond, body } => StmtV::While {
            cond: expr_view(cond),
            body: stmts_view_from(body, 0),
        },
        ParseNode::If { cond, body, elifs, else_body } => StmtV::If {
            cond: expr_view(cond),
            body: stmts_view_from(body, 0),
            elifs: elifs_view_from(elifs, 0),
            else_body: match else_body {
                Some(b) => Some(stmts_view_from(b, 0)),
                None => None,
            },
        },
    }
}

/// The models of the statements of `v` from position `i` on, in order.
pub open spec fn stmts_view_from(v: Vec<ParseNode>, i: int) -> Seq<StmtV>
    decreases v, 1int, v@.len() - i,
{
    if 0 <= i < v@.len() {
        seq![stmt_view(v[i])] + stmts_view_from(v, i + 1)
    } else {
        Seq::empty()
    }
}

/// The models of the `elif` arms of `v` from position `i` on, in order.
pub open spec fn elifs_view_from(v: Vec<ElifArm>, i: int) -> Seq<ElifArmV>
    decreases v, 1int, v@.len() - i,
{
    if 0 <= i < v@.len() {
        seq![elif_view(v[i])] + elifs_view_from(v, i + 1)
    } else {
        Seq::empty()
    }
}

/// The model of one `elif` arm.
pub open spec fn elif_view(a: ElifArm) -> ElifArmV
    decreases a, 2int, 0int,
{
    ElifArmV { cond: expr_view(a.cond), body: stmts_view_from(a.body, 0) }
}

impl View for Expr {
    type V = ExprV;

    open spec fn view(&self) -> ExprV {
        expr_view(*self)
    }
}

impl View for ParseNode {
    type V = StmtV;

    open spec fn view(&self) -> StmtV {
        stmt_view(*self)
    }
}

/// The model of a whole program: the models of its statements in order.
pub open spec fn stmts_view(ns: Vec<ParseNode>) -> Seq<StmtV> {
    stmts_view_from(ns, 0)
}

/// `stmts_view_from` walks the statements one by one: its length and its
/// elements are those of the underlying vector, statement by statement.
pub proof fn lemma_stmts_view_from(v: Vec<ParseNode>, i: int)
    requires
        0 <= i <= v@.len(),
    ensures
        stmts_view_from(v, i).len() == v@.len() - i,
        forall|j: int| i <= j < v@.len() ==> stmts_view_from(v, i)[j - i] == stmt_view(v[j]),
    decreases v@.len() - i,
{
    if i < v@.len() {
        lemma_stmts_view_from(v, i + 1);
    }
}

/// A non-fatal semantic diagnostic: an identifier referenced at a point where
/// the scope set does not hold it.
#[derive(Debug, PartialEq, Eq, Clone)]
pub struct Warning {
    pub name: String,
    pub line_no: usize,
}

/// Mathematical model of a semantic warning.
pub ghost struct WarnV {
    pub name: Seq<char>,
    pub line_no: nat,
}

impl View for Warning {
    type V = WarnV;

    open spec fn view(&self) -> WarnV {
        WarnV { name: self.name@, line_no: self.line_no as nat }
    }
}

/// The models of a sequence of semantic warnings.
pub open spec fn warns_view(s: Seq<Warning>) -> Seq<WarnV> {
    Seq::new(s.len(), |i: int| s[i]@)
}

/// The scope set that a vector of declared names stands for.
pub open spec fn env_view(s: Seq<String>) -> Set<Seq<char>> {
    Set::new(|n: Seq<char>| exists|i: int| 0 <= i < s.len() && s[i]@ == n)
}

/// The binding powers of an infix operator, higher binding tighter; the right
/// one exceeds the left one so that chains of one strength lean left. The
/// assignment mark `=` is no infix operator and has none: it ends the
/// expression and is left for the caller to reject.
pub open spec fn infix_bp(op: Operator) -> Option<(u8, u8)> {
    match op {
        Operator::Equality => Some((9u8, 10u8)),
        Operator::LessThan | Operator::LessThanEqual => Some((11u8, 12u8)),
        Operator::GreaterThan | Operator::GreaterThanEqual => Some((13u8, 14u8)),
        Operator::Plus | Operator::Minus => Some((15u8, 16u8)),
        Operator::Multiply | Operator::Divide => Some((17u8, 18u8)),
        Operator::Equal => None,
    }
}

/// The binding power of a prefix operator; only `+` and `-` may stand before
/// their operand.
pub open spec fn prefix_bp(op: Operator) -> Option<u8> {
    match op {
        Operator::Plus | Operator::Minus => Some(5u8),
        _ => None,
    }
}

/// The outcome of parsing one expression: the expression's model, the position
/// after it and the warnings it raised, or the message the parse fails with.
pub ghost enum ExprOut {
    Parsed { e: ExprV, nxt: int, warns: Seq<WarnV> },
    Fail(Seq<char>),
}

/// The outcome of parsing one statement: its model, the position after it, the
/// scope set it leaves behind and the warnings it raised, or the failure message.
pub ghost enum DeclOut {
    Parsed { stmt: StmtV, nxt: int, env: Set<Seq<char>>, warns: Seq<WarnV> },
    Fail(Seq<char>),
}

/// The outcome of parsing a statement list.
pub ghost enum StmtsOut {
    Parsed { stmts: Seq<StmtV>, nxt: int, env: Set<Seq<char>>, warns: Seq<WarnV> },
    Fail(Seq<char>),
}

/// The outcome of parsing the `elif` arms of an `if` statement.
pub ghost enum ElifsOut {
    Parsed { elifs: Seq<ElifArmV>, nxt: int, warns: Seq<WarnV> },
    Fail(Seq<char>),
}

/// The outcome of parsing a whole program.
pub ghost enum ProgOut {
    Parsed { stmts: Seq<StmtV>, warns: Seq<WarnV> },
    Fail(Seq<char>),
}

/// Parses one atom: a number, an identifier, or a prefix operator applied to
/// the expression that follows it. An identifier that the scope set does not
/// hold raises a used-before-declaration warning but still parses.
pub open spec fn parse_atom_spec(toks: Seq<TokenV>, cur: int, env: Set<Seq<char>>) -> ExprOut
    decreases toks.len() - cur, 0int,
{
    if !(0 <= cur < toks.len()) {
        ExprOut::Fail("Invalid start of expression"@)
    } else {
        match toks[cur].token {
            TokenTypeV::Number(s) => ExprOut::Parsed {
                e: ExprV::Number(s),
                nxt: cur + 1,
                warns: Seq::empty(),
            },
            TokenTypeV::Identifier(s) => ExprOut::Parsed {
                e: ExprV::Identifier(s),
                nxt: cur + 1,
                warns: if env.contains(s) {
                    Seq::empty()
                } else {
                    seq![WarnV { name: s, line_no: toks[cur].line_no }]
                },
            },
            TokenTypeV::Operator(op) => match prefix_bp(op) {
                Option::None => ExprOut::Fail("Invalid prefix operator"@),
                Option::Some(r_bp) => match parse_expr_spec(toks, cur + 1, r_bp, env) {
                    ExprOut::Fail(m) => ExprOut::Fail(m),
                    ExprOut::Parsed { e, nxt, warns } => ExprOut::Parsed {
                        e: ExprV::Unary(op, Box::new(e)),
                        nxt,
                        warns,
                    },
                },
            },
            _ => ExprOut::Fail("Invalid start of expression"@),
        }
    }
}

/// Parses an expression by precedence climbing: one atom, then every infix
/// operator at least as strong as `min_bp`, each followed by its right-hand
/// side parsed at the operator's right strength.
pub open spec fn parse_expr_spec(toks: Seq<TokenV>, cur: int, min_bp: u8, env: Set<Seq<char>>) -> ExprOut
    decreases toks.len() - cur, 1int,
{
    if !(0 <= cur < toks.len()) {
        ExprOut::Fail("Invalid start of expression"@)
    } else {
        match parse_atom_spec(toks, cur, env) {
            ExprOut::Fail(m) => ExprOut::Fail(m),
            ExprOut::Parsed { e, nxt, warns } => {
                let nxt2 = clamp_pos(nxt, cur + 1, toks.len() as int);
                match climb_spec(toks, e, nxt2, min_bp, env) {
                    ExprOut::Fail(m) => ExprOut::Fail(m),
                    ExprOut::Parsed { e: e2, nxt: n2, warns: w2 } => ExprOut::Parsed {
                        e: e2,
                        nxt: n2,
                        warns: warns + w2,
                    },
                }
            },
        }
    }
}

/// Folds infix operators onto `lhs` while the operator ahead binds at least
/// as strongly as `min_bp`; chains of one strength combine left-first.
pub open spec fn climb_spec(
    toks: Seq<TokenV>,
    lhs: ExprV,
    cur: int,
    min_bp: u8,
    env: Set<Seq<char>>,
) -> ExprOut
    decreases toks.len() - cur, 2int,
{
    if !(0 <= cur < toks.len()) {
        ExprOut::Parsed { e: lhs, nxt: cur, warns: Seq::empty() }
    } else {
        match toks[cur].token {
            TokenTypeV::Operator(op) => match infix_bp(op) {
                Option::None => ExprOut::Parsed { e: lhs, nxt: cur, warns: Seq::empty() },
                Option::Some((l_bp, r_bp)) => if l_bp < min_bp {
                    ExprOut::Parsed { e: lhs, nxt: cur, warns: Seq::empty() }
                } else {
                    match parse_expr_spec(toks, cur + 1, r_bp, env) {
                        ExprOut::Fail(m) => ExprOut::Fail(m),
                        ExprOut::Parsed { e: rhs, nxt, warns } => {
                            let nxt2 = clamp_pos(nxt, cur + 1, toks.len() as int);
                            match climb_spec(
                                toks,
                                ExprV::Binary(op, Box::new(lhs), Box::new(rhs)),
                                nxt2,
                                min_bp,
                                env,
                            ) {
                                ExprOut::Fail(m) => ExprOut::Fail(m),
                                ExprOut::Parsed { e: e2, nxt: n2, warns: w2 } => ExprOut::Parsed {
                                    e: e2,
                                    nxt: n2,
                                    warns: warns + w2,
                                },
                            }
                        },
                    }
                },
            },
            _ => ExprOut::Parsed { e: lhs, nxt: cur, warns: Seq::empty() },
        }
    }
}

/// True when the token at `cur` exists and is of the given kind; the
/// statement grammar checks each structural token this way.
pub open spec fn tok_at_is(toks: Seq<TokenV>, cur: int, t: TokenTypeV) -> bool {
    0 <= cur < toks.len() && toks[cur].token == t
}

/// Parses the `elif` arms that follow an `if` block, each one a condition in
/// parentheses and a braced body parsed in a copy of the enclosing scope set.
pub open spec fn parse_elifs_spec(toks: Seq<TokenV>, cur: int, env: Set<Seq<char>>) -> ElifsOut
    decreases toks.len() - cur, 3int,
{
    if !tok_at_is(toks, cur, TokenTypeV::Elif) {
        ElifsOut::Parsed { elifs: Seq::empty(), nxt: cur, warns: Seq::empty() }
    } else if !tok_at_is(toks, cur + 1, TokenTypeV::LeftParen) {
        ElifsOut::Fail("Elif condition must start with parenthesis"@)
    } else {
        match parse_expr_spec(toks, cur + 2, 0u8, env) {
            ExprOut::Fail(m) => ElifsOut::Fail(m),
            ExprOut::Parsed { e: cond, nxt, warns } => {
                let p1 = clamp_pos(nxt, cur + 2, toks.len() as int);
                if !tok_at_is(toks, p1, TokenTypeV::RightParen) {
                    ElifsOut::Fail("Elif condition not closed"@)
                } else if !tok_at_is(toks, p1 + 1, TokenTypeV::LeftCurly) {
                    ElifsOut::Fail("Elif block must start with curly braces"@)
                } else {
                    match parse_stmts_spec(toks, p1 + 2, env) {
                        StmtsOut::Fail(m) => ElifsOut::Fail(m),
                        StmtsOut::Parsed { stmts, nxt: b_nxt, env: _, warns: w2 } => {
                            let p2 = clamp_pos(b_nxt, p1 + 2, toks.len() as int);
                            if !tok_at_is(toks, p2, TokenTypeV::RightCurly) {
                                ElifsOut::Fail("Elif block not closed"@)
                            } else {
                                match parse_elifs_spec(toks, p2 + 1, env) {
                                    ElifsOut::Fail(m) => ElifsOut::Fail(m),
                                    ElifsOut::Parsed { elifs, nxt: n2, warns: w3 } => ElifsOut::Parsed {
                                        elifs: seq![ElifArmV { cond, body: stmts }] + elifs,
                                        nxt: n2,
                                        warns: warns + w2 + w3,
                                    },
                                }
                            }
                        },
                    }
                }
            },
        }
    }
}

/// Parses one statement: a `let` declaration, a `while` loop, an `if`
/// statement with its `elif` and `else` arms, or a `print` call. Block bodies
/// are parsed in a copy of the enclosing scope set, so declarations inside
/// them never escape; `let` registers its name before its initializer is
/// parsed, so the initializer may reference the name being declared.
///
/// The statement separator `;` is part of the token vocabulary but has no
/// production here: statements are juxtaposed, and a separator is rejected
/// like any other unexpected token.
pub open spec fn parse_decl_spec(toks: Seq<TokenV>, cur: int, env: Set<Seq<char>>) -> DeclOut
    decreases toks.len() - cur, 3int,
{
    if !(0 <= cur < toks.len()) {
        DeclOut::Fail("Couldn't be parsed"@)
    } else {
        match toks[cur].token {
            TokenTypeV::Let => parse_let_spec(toks, cur, env),
            TokenTypeV::While => parse_while_spec(toks, cur, env),
            TokenTypeV::If => parse_if_spec(toks, cur, env),
            TokenTypeV::Print => parse_print_spec(toks, cur, env),
            _ => DeclOut::Fail("Invalid token in statement position"@),
        }
    }
}

/// Parses the rest of a `let` declaration: an identifier, `=`, then either a
/// string literal or an expression. The declared name enters the scope set
/// before the initializer is parsed.
pub open spec fn parse_let_spec(toks: Seq<TokenV>, cur: int, env: Set<Seq<char>>) -> DeclOut
    decreases toks.len() - cur, 2int,
{
    if !(0 <= cur && cur + 2 < toks.len()) {
        DeclOut::Fail("Invalid variable declaration"@)
    } else if !(toks[cur + 1].token is Identifier
        && toks[cur + 2].token == TokenTypeV::Operator(Operator::Equal)) {
        DeclOut::Fail("Invalid variable declaration"@)
    } else {
        let name = toks[cur + 1].token->Identifier_0;
        let env2 = env.insert(name);
        if cur + 3 < toks.len() && toks[cur + 3].token is StringLiteral {
            DeclOut::Parsed {
                stmt: StmtV::Let {
                    name,
                    value: LetValueV::Str(toks[cur + 3].token->StringLiteral_0),
                },
                nxt: cur + 4,
                env: env2,
                warns: Seq::empty(),
            }
        } else {
            match parse_expr_spec(toks, cur + 3, 0u8, env2) {
                ExprOut::Fail(m) => DeclOut::Fail(m),
                ExprOut::Parsed { e, nxt, warns } => DeclOut::Parsed {
                    stmt: StmtV::Let { name, value: LetValueV::Expr(e) },
                    nxt,
                    env: env2,
                    warns,
                },
            }
        }
    }
}

/// Parses the rest of a `while` loop: a parenthesized condition and a braced
/// body parsed in a copy of the enclosing scope set.
pub open spec fn parse_while_spec(toks: Seq<TokenV>, cur: int, env: Set<Seq<char>>) -> DeclOut
    decreases toks.len() - cur, 2int,
{
    if !tok_at_is(toks, cur + 1, TokenTypeV::LeftParen) {
        DeclOut::Fail("Missing open parenthesis in while loop"@)
    } else {
        match parse_expr_spec(toks, cur + 2, 0u8, env) {
            ExprOut::Fail(m) => DeclOut::Fail(m),
            ExprOut::Parsed { e: cond, nxt, warns } => {
                let p1 = clamp_pos(nxt, cur + 2, toks.len() as int);
                if !tok_at_is(toks, p1, TokenTypeV::RightParen) {
                    DeclOut::Fail("While condition doesn't have a closing parenthesis"@)
                } else if !tok_at_is(toks, p1 + 1, TokenTypeV::LeftCurly) {
                    DeclOut::Fail("Missing left curly in while loop"@)
                } else {
                    match parse_stmts_spec(toks, p1 + 2, env) {
                        StmtsOut::Fail(m) => DeclOut::Fail(m),
                        StmtsOut::Parsed { stmts, nxt: b_nxt, env: _, warns: w2 } => {
                            let p2 = clamp_pos(b_nxt, p1 + 2, toks.len() as int);
                            if !tok_at_is(toks, p2, TokenTypeV::RightCurly) {
                                DeclOut::Fail("Missing right curly in while loop"@)
                            } else {
                                DeclOut::Parsed {
                                    stmt: StmtV::While { cond, body: stmts },
                                    nxt: p2 + 1,
                                    env,
                                    warns: warns + w2,
                                }
                            }
                        },
                    }
                }
            },
        }
    }
}

/// Parses the rest of an `if` statement: a parenthesized condition, a braced
/// body, then any `elif` arms and at most one `else` block, each body parsed
/// in a copy of the enclosing scope set.
pub open spec fn parse_if_spec(toks: Seq<TokenV>, cur: int, env: Set<Seq<char>>) -> DeclOut
    decreases toks.len() - cur, 2int,
{
    if !tok_at_is(toks, cur + 1, TokenTypeV::LeftParen) {
        DeclOut::Fail("If condition must start with an open parenthesis"@)
    } else {
        match parse_expr_spec(toks, cur + 2, 0u8, env) {
            ExprOut::Fail(m) => DeclOut::Fail(m),
            ExprOut::Parsed { e: cond, nxt, warns } => {
                let p1 = clamp_pos(nxt, cur + 2, toks.len() as int);
                if !tok_at_is(toks, p1, TokenTypeV::RightParen) {
                    DeclOut::Fail("If condition not closed"@)
                } else if !tok_at_is(toks, p1 + 1, TokenTypeV::LeftCurly) {
                    DeclOut::Fail("If condition must start with curly braces"@)
                } else {
                    match parse_stmts_spec(toks, p1 + 2, env) {
                        StmtsOut::Fail(m) => DeclOut::Fail(m),
                        StmtsOut::Parsed { stmts, nxt: b_nxt, env: _, warns: w2 } => {
                            let p2 = clamp_pos(b_nxt, p1 + 2, toks.len() as int);
                            if !tok_at_is(toks, p2, TokenTypeV::RightCurly) {
                                DeclOut::Fail("If block not closed"@)
                            } else {
                                match parse_elifs_spec(toks, p2 + 1, env) {
                                    ElifsOut::Fail(m) => DeclOut::Fail(m),
                                    ElifsOut::Parsed { elifs, nxt: e_nxt, warns: w3 } => {
                                        let p3 = clamp_pos(e_nxt, p2 + 1, toks.len() as int);
                                        parse_else_spec(toks, p3, env, cond, stmts, elifs, warns + w2 + w3)
                                    },
                                }
                            }
                        },
                    }
                }
            },
        }
    }
}

/// Parses the optional `else` block that ends an `if` statement and builds
/// the statement's model.
pub open spec fn parse_else_spec(
    toks: Seq<TokenV>,
    cur: int,
    env: Set<Seq<char>>,
    cond: ExprV,
    body: Seq<StmtV>,
    elifs: Seq<ElifArmV>,
    warns: Seq<WarnV>,
) -> DeclOut
    decreases toks.len() - cur, 1int,
{
    if !tok_at_is(toks, cur, TokenTypeV::Else) {
        DeclOut::Parsed {
            stmt: StmtV::If { cond, body, elifs, else_body: Option::None },
            nxt: cur,
            env,
            warns,
        }
    } else if !tok_at_is(toks, cur + 1, TokenTypeV::LeftCurly) {
        DeclOut::Fail("Else block must start with curly braces"@)
    } else {
        match parse_stmts_spec(toks, cur + 2, env) {
            StmtsOut::Fail(m) => DeclOut::Fail(m),
            StmtsOut::Parsed { stmts, nxt: b_nxt, env: _, warns: w2 } => {
                let p1 = clamp_pos(b_nxt, cur + 2, toks.len() as int);
                if !tok_at_is(toks, p1, TokenTypeV::RightCurly) {
                    DeclOut::Fail("Else block not closed"@)
                } else {
                    DeclOut::Parsed {
                        stmt: StmtV::If { cond, body, elifs, else_body: Option::Some(stmts) },
                        nxt: p1 + 1,
                        env,
                        warns: warns + w2,
                    }
                }
            },
        }
    }
}

/// Parses the rest of a `print` statement: one parenthesized expression.
pub open spec fn parse_print_spec(toks: Seq<TokenV>, cur: int, env: Set<Seq<char>>) -> DeclOut
    decreases toks.len() - cur, 2int,
{
    if !tok_at_is(toks, cur + 1, TokenTypeV::LeftParen) {
        DeclOut::Fail("Left parenthesis missing in function call"@)
    } else {
        match parse_expr_spec(toks, cur + 2, 0u8, env) {
            ExprOut::Fail(m) => DeclOut::Fail(m),
            ExprOut::Parsed { e, nxt, warns } => {
                let p1 = clamp_pos(nxt, cur + 2, toks.len() as int);
                if !tok_at_is(toks, p1, TokenTypeV::RightParen) {
                    DeclOut::Fail("Right parenthesis missing in function call"@)
                } else {
                    DeclOut::Parsed { stmt: StmtV::Print(e), nxt: p1 + 1, env, warns }
                }
            },
        }
    }
}

/// Parses statements until a closing brace or the end of the input; each
/// statement may extend the scope set that the following ones are parsed in.
pub open spec fn parse_stmts_spec(toks: Seq<TokenV>, cur: int, env: Set<Seq<char>>) -> StmtsOut
    decreases toks.len() - cur, 4int,
{
    if !(0 <= cur < toks.len()) || toks[cur].token is RightCurly {
        StmtsOut::Parsed { stmts: Seq::empty(), nxt: cur, env, warns: Seq::empty() }
    } else {
        match parse_decl_spec(toks, cur, env) {
            DeclOut::Fail(m) => StmtsOut::Fail(m),
            DeclOut::Parsed { stmt, nxt, env: env2, warns } => {
                let nxt2 = clamp_pos(nxt, cur + 1, toks.len() as int);
                match parse_stmts_spec(toks, nxt2, env2) {
                    StmtsOut::Fail(m) => StmtsOut::Fail(m),
                    StmtsOut::Parsed { stmts, nxt: n2, env: env3, warns: w2 } => StmtsOut::Parsed {
                        stmts: seq![stmt] + stmts,
                        nxt: n2,
                        env: env3,
                        warns: warns + w2,
                    },
                }
            },
        }
    }
}

/// Parses a whole program from position `cur` with the given scope set: a
/// statement list that must consume every remaining token.
pub open spec fn parse_prog_spec(toks: Seq<TokenV>, cur: int) -> ProgOut {
    match parse_stmts_spec(toks, cur, Set::empty()) {
        StmtsOut::Fail(m) => ProgOut::Fail(m),
        StmtsOut::Parsed { stmts, nxt, env: _, warns } => if nxt >= toks.len() {
            ProgOut::Parsed { stmts, warns }
        } else {
            ProgOut::Fail("Invalid parse"@)
        },
    }
}

/// Parsing a whole token sequence, from its start, in an empty scope.
pub open spec fn parse_spec(toks: Seq<TokenV>) -> ProgOut {
    parse_prog_spec(toks, 0)
}

/// Parsing is total and deterministic. Totality: `Parser::parse` terminates
/// on every token sequence (its recursion is measured by the tokens left) and
/// its outcome equals `parse_spec` with no input excluded. Determinism: two
/// parses of one token sequence yield one outcome — structurally identical
/// statement models on success, the same message on failure.
pub proof fn lemma_parse_deterministic(
    toks1: Seq<TokenV>,
    toks2: Seq<TokenV>,
    r1: ProgOut,
    r2: ProgOut,
)
    requires
        toks1 == toks2,
        r1 == parse_spec(toks1),
        r2 == parse_spec(toks2),
    ensures
        r1 == r2,
{
}

/// Pushing a name onto the scope vector inserts it into the scope set.
proof fn lemma_env_push(s: Seq<String>, x: String)
    ensures
        env_view(s.push(x)) == env_view(s).insert(x@),
{
    assert forall|n: Seq<char>| env_view(s.push(x)).contains(n) implies env_view(s).insert(
        x@,
    ).contains(n) by {
        let i = choose|i: int| 0 <= i < s.push(x).len() && s.push(x)[i]@ == n;
        if i < s.len() {
            assert(s[i]@ == n);
        } else {
            assert(n == x@);
        }
    }
    assert forall|n: Seq<char>| env_view(s).insert(x@).contains(n) implies env_view(
        s.push(x),
    ).contains(n) by {
        if n == x@ {
            assert(s.push(x)[s.len() as int]@ == n);
        } else {
            let i = choose|i: int| 0 <= i < s.len() && s[i]@ == n;
            assert(s.push(x)[i]@ == n);
        }
    }
    assert(env_view(s.push(x)) =~= env_view(s).insert(x@));
}

/// True exactly when the scope set holds the name.
fn env_contains(env: &Vec<String>, name: &String) -> (r: bool)
    ensures
        r == env_view(env@).contains(name@),
{
    let n = env.len();
    let mut i: usize = 0;
    while i < n
        invariant
            i <= n == env@.len(),
            forall|j: int| 0 <= j < i ==> env@[j]@ != name@,
        decreases n - i,
    {
        if env[i].eq(name) {
            proof {
                assert(env@[i as int]@ == name@);
            }
            return true;
        }
        i = i + 1;
    }
    false
}

/// A copy of the scope vector, standing for the same scope set; nested block
/// bodies are parsed in such a copy, so their declarations never escape.
fn env_clone(env: &Vec<String>) -> (r: Vec<String>)
    ensures
        env_view(r@) == env_view(env@),
{
    let n = env.len();
    let mut r: Vec<String> = Vec::new();
    let mut i: usize = 0;
    while i < n
        invariant
            r@.len() == i <= n == env@.len(),
            forall|j: int| 0 <= j < i ==> r@[j] == env@[j],
        decreases n - i,
    {
        r.push(env[i].clone());
        i = i + 1;
    }
    proof {
        assert(r@ =~= env@);
    }
    r
}

fn infix_binding_power(op: Operator) -> (r: Option<(u8, u8)>)
    ensures
        r == infix_bp(op),
{
    match op {
        Operator::Equality => Some((9, 10)),
        Operator::LessThan | Operator::LessThanEqual => Some((11, 12)),
        Operator::GreaterThan | Operator::GreaterThanEqual => Some((13, 14)),
        Operator::Plus | Operator::Minus => Some((15, 16)),
        Operator::Multiply | Operator::Divide => Some((17, 18)),
        Operator::Equal => None,
    }
}

fn prefix_binding_power(op: Operator) -> (r: Option<u8>)
    ensures
        r == prefix_bp(op),
{
    match op {
        Operator::Plus | Operator::Minus => Some(5),
        _ => None,
    }
}

/// The parser: it walks the token sequence once, left to right, and builds
/// the statement list that `parse_spec` describes, collecting the non-fatal
/// used-before-declaration warnings on the side.
#[derive(Debug)]
pub struct Parser {
    tokens: Vec<Token>,
    cur: usize,
    /// The used-before-declaration warnings raised so far, in source order.
    pub warnings: Vec<Warning>,
}

impl Parser {
    /// The models of the tokens this parser walks.
    pub closed spec fn toks(&self) -> Seq<TokenV> {
        toks_view(self.tokens@)
    }

    /// The position of the next token to be consumed.
    pub closed spec fn pos(&self) -> int {
        self.cur as int
    }

    /// The models of the warnings collected so far.
    pub closed spec fn warns(&self) -> Seq<WarnV> {
        warns_view(self.warnings@)
    }

    /// The position never passes the end of the token sequence.
    pub closed spec fn wf(&self) -> bool {
        self.cur <= self.tokens@.len()
    }

    /// Makes a parser over the given tokens, standing at the first one.
    pub fn new(tokens: Vec<Token>) -> (p: Parser)
        ensures
            p.wf(),
            p.toks() == toks_view(tokens@),
            p.pos() == 0,
            p.warns() == Seq::<WarnV>::empty(),
    {
        let p = Parser { tokens, cur: 0, warnings: Vec::new() };
        proof {
            assert(p.warns() =~= Seq::<WarnV>::empty());
        }
        p
    }

    fn advance(&mut self)
        requires
            old(self).wf(),
            old(self).pos() < old(self).toks().len(),
        ensures
            final(self).wf(),
            final(self).toks() == old(self).toks(),
            final(self).warns() == old(self).warns(),
            final(self).pos() == old(self).pos() + 1,
    {
        let n = self.tokens.len();
        assert(self.cur < n);
        self.cur = self.cur + 1;
    }

    fn peek_is_lparen(&self) -> (r: bool)
        requires
            self.wf(),
        ensures
            r == tok_at_is(self.toks(), self.pos(), TokenTypeV::LeftParen),
    {
        self.cur < self.tokens.len() && (match &self.tokens[self.cur].token {
            TokenType::LeftParen => true,
            _ => false,
        })
    }

    fn peek_is_rparen(&self) -> (r: bool)
        requires
            self.wf(),
        ensures
            r == tok_at_is(self.toks(), self.pos(), TokenTypeV::RightParen),
    {
        self.cur < self.tokens.len() && (match &self.tokens[self.cur].token {
            TokenType::RightParen => true,
            _ => false,
        })
    }

    fn peek_is_lcurly(&self) -> (r: bool)
        requires
            self.wf(),
        ensures
            r == tok_at_is(self.toks(), self.pos(), TokenTypeV::LeftCurly),
    {
        self.cur < self.tokens.len() && (match &self.tokens[self.cur].token {
            TokenType::LeftCurly => true,
            _ => false,
        })
    }

    fn peek_is_rcurly(&self) -> (r: bool)
        requires
            self.wf(),
        ensures
            r == tok_at_is(self.toks(), self.pos(), TokenTypeV::RightCurly),
    {
        self.cur < self.tokens.len() && (match &self.tokens[self.cur].token {
            TokenType::RightCurly => true,
            _ => false,
        })
    }

    fn peek_is_elif(&self) -> (r: bool)
        requires
            self.wf(),
        ensures
            r == tok_at_is(self.toks(), self.pos(), TokenTypeV::Elif),
    {
        self.cur < self.tokens.len() && (match &self.tokens[self.cur].token {
            TokenType::Elif => true,
            _ => false,
        })
    }

    fn peek_is_else(&self) -> (r: bool)
        requires
            self.wf(),
        ensures
            r == tok_at_is(self.toks(), self.pos(), TokenTypeV::Else),
    {
        self.cur < self.tokens.len() && (match &self.tokens[self.cur].token {
            TokenType::Else => true,
            _ => false,
        })
    }


    fn parse_atom(&mut self, env: &Vec<String>) -> (r: Result<Expr, String>)
        requires
            old(self).wf(),
        ensures
            final(self).wf(),
            final(self).toks() == old(self).toks(),
            match r {
                Ok(e) => (parse_atom_spec(old(self).toks(), old(self).pos(), env_view(env@))
                    matches ExprOut::Parsed { e: ev, nxt, warns }
                    && expr_view(e) == ev
                    && final(self).pos() == nxt
                    && old(self).pos() < nxt <= old(self).toks().len()
                    && final(self).warns() == old(self).warns() + warns),
                Err(m) => (parse_atom_spec(old(self).toks(), old(self).pos(), env_view(env@))
                    matches ExprOut::Fail(msg)
                    && m@ == msg),
            },
        decreases self.tokens@.len() - self.cur, 0int,
    {
        let ghost w0 = self.warns();
        if self.cur >= self.tokens.len() {
            return Err(String::from_str("Invalid start of expression"));
        }
        let line_no = self.tokens[self.cur].line_no;
        match &self.tokens[self.cur].token {
            TokenType::Number(s) => {
                let sv = s.clone();
                self.advance();
                proof {
                    assert(w0 + Seq::<WarnV>::empty() =~= w0);
                }
                Ok(Expr::Number(sv))
            },
            TokenType::Identifier(s) => {
                let name = s.clone();
                self.advance();
                if env_contains(env, &name) {
                    proof {
                        assert(w0 + Seq::<WarnV>::empty() =~= w0);
                    }
                    Ok(Expr::Identifier(name))
                } else {
                    let w = Warning { name: name.clone(), line_no };
                    self.warnings.push(w);
                    proof {
                        assert(self.warns() =~= w0 + seq![w@]);
                    }
                    Ok(Expr::Identifier(name))
                }
            },
            TokenType::Operator(o) => {
                let op = *o;
                match prefix_binding_power(op) {
                    None => Err(String::from_str("Invalid prefix operator")),
                    Some(r_bp) => {
                        self.advance();
                        let rhs = self.parse_expr(r_bp, env)?;
                        Ok(Expr::Unary(op, Box::new(rhs)))
                    },
                }
            },
            _ => Err(String::from_str("Invalid start of expression")),
        }
    }

    fn parse_expr(&mut self, min_bp: u8, env: &Vec<String>) -> (r: Result<Expr, String>)
        requires
            old(self).wf(),
        ensures
            final(self).wf(),
            final(self).toks() == old(self).toks(),
            match r {
                Ok(e) => (parse_expr_spec(old(self).toks(), old(self).pos(), min_bp, env_view(env@))
                    matches ExprOut::Parsed { e: ev, nxt, warns }
                    && expr_view(e) == ev
                    && final(self).pos() == nxt
                    && old(self).pos() < nxt <= old(self).toks().len()
                    && final(self).warns() == old(self).warns() + warns),
                Err(m) => (parse_expr_spec(old(self).toks(), old(self).pos(), min_bp, env_view(env@))
                    matches ExprOut::Fail(msg)
                    && m@ == msg),
            },
        decreases self.tokens@.len() - self.cur, 1int,
    {
        let ghost t0 = self.toks();
        let ghost c0 = self.pos();
        let ghost w0 = self.warns();
        let ghost ev0 = env_view(env@);
        if self.cur >= self.tokens.len() {
            return Err(String::from_str("Invalid start of expression"));
        }
        let lhs = match self.parse_atom(env) {
            Err(m) => {
                return Err(m);
            },
            Ok(l) => l,
        };
        let r = self.climb(lhs, min_bp, env);
        proof {
            if let ExprOut::Parsed { e: ea, nxt: na, warns: wa } = parse_atom_spec(t0, c0, ev0) {
                assert(clamp_pos(na, c0 + 1, t0.len() as int) == na);
                if let ExprOut::Parsed { e: e2, nxt: n2, warns: w2 } = climb_spec(
                    t0,
                    ea,
                    na,
                    min_bp,
                    ev0,
                ) {
                    assert((w0 + wa) + w2 =~= w0 + (wa + w2));
                }
            }
        }
        r
    }

    fn climb(&mut self, lhs: Expr, min_bp: u8, env: &Vec<String>) -> (r: Result<Expr, String>)
        requires
            old(self).wf(),
        ensures
            final(self).wf(),
            final(self).toks() == old(self).toks(),
            match r {
                Ok(e) => (climb_spec(old(self).toks(), expr_view(lhs), old(self).pos(), min_bp, env_view(env@))
                    matches ExprOut::Parsed { e: ev, nxt, warns }
                    && expr_view(e) == ev
                    && final(self).pos() == nxt
                    && old(self).pos() <= nxt <= old(self).toks().len()
                    && final(self).warns() == old(self).warns() + warns),
                Err(m) => (climb_spec(old(self).toks(), expr_view(lhs), old(self).pos(), min_bp, env_view(env@))
                    matches ExprOut::Fail(msg)
                    && m@ == msg),
            },
        decreases self.tokens@.len() - self.cur, 2int,
    {
        let ghost t0 = self.toks();
        let ghost c0 = self.pos();
        let ghost w0 = self.warns();
        let ghost ev0 = env_view(env@);
        let ghost lhs_v = expr_view(lhs);
        if self.cur >= self.tokens.len() {
            proof {
                assert(w0 + Seq::<WarnV>::empty() =~= w0);
            }
            return Ok(lhs);
        }
        let op = match &self.tokens[self.cur].token {
            TokenType::Operator(o) => *o,
            _ => {
                proof {
                    assert(w0 + Seq::<WarnV>::empty() =~= w0);
                }
                return Ok(lhs);
            },
        };
        let bp = match infix_binding_power(op) {
            Some(p) => p,
            None => {
                proof {
                    assert(w0 + Seq::<WarnV>::empty() =~= w0);
                }
                return Ok(lhs);
            },
        };
        if bp.0 < min_bp {
            proof {
                assert(w0 + Seq::<WarnV>::empty() =~= w0);
            }
            return Ok(lhs);
        }
        self.advance();
        let rhs = match self.parse_expr(bp.1, env) {
            Err(m) => {
                return Err(m);
            },
            Ok(x) => x,
        };
        let ghost rhs_v = expr_view(rhs);
        let new_lhs = Expr::Binary(op, Box::new(lhs), Box::new(rhs));
        proof {
            assert(expr_view(new_lhs) == ExprV::Binary(op, Box::new(lhs_v), Box::new(rhs_v)));
        }
        let r = self.climb(new_lhs, min_bp, env);
        proof {
            if let ExprOut::Parsed { e: re, nxt: na, warns: wa } = parse_expr_spec(
                t0,
                c0 + 1,
                bp.1,
                ev0,
            ) {
                assert(clamp_pos(na, c0 + 1, t0.len() as int) == na);
                if let ExprOut::Parsed { e: e2, nxt: n2, warns: w2 } = climb_spec(
                    t0,
                    ExprV::Binary(op, Box::new(lhs_v), Box::new(re)),
                    na,
                    min_bp,
                    ev0,
                ) {
                    assert((w0 + wa) + w2 =~= w0 + (wa + w2));
                }
            }
        }
        r
    }
}

/// `elifs_view_from` walks the arms one by one: its length and its elements
/// are those of the underlying vector, arm by arm.
pub proof fn lemma_elifs_view_from(v: Vec<ElifArm>, i: int)
    requires
        0 <= i <= v@.len(),
    ensures
        elifs_view_from(v, i).len() == v@.len() - i,
        forall|j: int| i <= j < v@.len() ==> elifs_view_from(v, i)[j - i] == elif_view(v[j]),
    decreases v@.len() - i,
{
    if i < v@.len() {
        lemma_elifs_view_from(v, i + 1);
    }
}

/// A vector made of one statement followed by the statements of another
/// models as that statement's model followed by the other's models.
proof fn lemma_stmts_prepend(v: Vec<ParseNode>, x: ParseNode, w: Vec<ParseNode>)
    requires
        v@ == seq![x] + w@,
    ensures
        stmts_view_from(v, 0) == seq![stmt_view(x)] + stmts_view_from(w, 0),
{
    lemma_stmts_view_from(v, 0);
    lemma_stmts_view_from(w, 0);
    let lhs = stmts_view_from(v, 0);
    let rhs = seq![stmt_view(x)] + stmts_view_from(w, 0);
    assert forall|k: int| 0 <= k < lhs.len() implies lhs[k] == rhs[k] by {
        assert(lhs[k] == stmt_view(v[k]));
        if k == 0 {
            assert(v@[0] == x);
        } else {
            assert(v@[k] == w@[k - 1]);
            assert(stmts_view_from(w, 0)[k - 1] == stmt_view(w[k - 1]));
        }
    }
    assert(lhs =~= rhs);
}

/// A vector made of one `elif` arm followed by the arms of another models as
/// that arm's model followed by the other's models.
proof fn lemma_elifs_prepend(v: Vec<ElifArm>, x: ElifArm, w: Vec<ElifArm>)
    requires
        v@ == seq![x] + w@,
    ensures
        elifs_view_from(v, 0) == seq![elif_view(x)] + elifs_view_from(w, 0),
{
    lemma_elifs_view_from(v, 0);
    lemma_elifs_view_from(w, 0);
    let lhs = elifs_view_from(v, 0);
    let rhs = seq![elif_view(x)] + elifs_view_from(w, 0);
    assert forall|k: int| 0 <= k < lhs.len() implies lhs[k] == rhs[k] by {
        assert(lhs[k] == elif_view(v[k]));
        if k == 0 {
            assert(v@[0] == x);
        } else {
            assert(v@[k] == w@[k - 1]);
            assert(elifs_view_from(w, 0)[k - 1] == elif_view(w[k - 1]));
        }
    }
    assert(lhs =~= rhs);
}

impl Parser {
    fn parse_let(&mut self, env: &mut Vec<String>) -> (r: Result<ParseNode, String>)
        requires
            old(self).wf(),
            old(self).pos() < old(self).toks().len(),
        ensures
            final(self).wf(),
            final(self).toks() == old(self).toks(),
            match r {
                Ok(node) => (parse_let_spec(old(self).toks(), old(self).pos(), env_view(old(env)@))
                    matches DeclOut::Parsed { stmt, nxt, env: e2, warns }
                    && stmt_view(node) == stmt
                    && final(self).pos() == nxt
                    && old(self).pos() < nxt <= old(self).toks().len()
                    && env_view(final(env)@) == e2
                    && final(self).warns() == old(self).warns() + warns),
                Err(m) => (parse_let_spec(old(self).toks(), old(self).pos(), env_view(old(env)@))
                    matches DeclOut::Fail(msg)
                    && m@ == msg),
            },
        decreases self.tokens@.len() - self.cur, 2int,
    {
        let ghost t0 = self.toks();
        let ghost c0 = self.pos();
        let ghost w0 = self.warns();
        let ghost ev0 = env_view(env@);
        self.advance();
        if self.cur >= self.tokens.len() {
            return Err(String::from_str("Invalid variable declaration"));
        }
        let name = match &self.tokens[self.cur].token {
            TokenType::Identifier(s) => s.clone(),
            _ => {
                return Err(String::from_str("Invalid variable declaration"));
            },
        };
        self.advance();
        if self.cur >= self.tokens.len() {
            return Err(String::from_str("Invalid variable declaration"));
        }
        match &self.tokens[self.cur].token {
            TokenType::Operator(Operator::Equal) => {},
            _ => {
                return Err(String::from_str("Invalid variable declaration"));
            },
        }
        let ghost env0 = env@;
        env.push(name.clone());
        proof {
            lemma_env_push(env0, name);
        }
        self.advance();
        if self.cur < self.tokens.len() {
            match &self.tokens[self.cur].token {
                TokenType::StringLiteral(s) => {
                    let sv = s.clone();
                    self.advance();
                    proof {
                        assert(w0 + Seq::<WarnV>::empty() =~= w0);
                    }
                    return Ok(ParseNode::Let { name, value: LetValue::Str(sv) });
                },
                _ => {},
            }
        }
        let e = match self.parse_expr(0, env) {
            Err(m) => {
                return Err(m);
            },
            Ok(x) => x,
        };
        Ok(ParseNode::Let { name, value: LetValue::Expr(e) })
    }

    fn parse_while(&mut self, env: &Vec<String>) -> (r: Result<ParseNode, String>)
        requires
            old(self).wf(),
            old(self).pos() < old(self).toks().len(),
        ensures
            final(self).wf(),
            final(self).toks() == old(self).toks(),
            match r {
                Ok(node) => (parse_while_spec(old(self).toks(), old(self).pos(), env_view(env@))
                    matches DeclOut::Parsed { stmt, nxt, env: e2, warns }
                    && stmt_view(node) == stmt
                    && final(self).pos() == nxt
                    && old(self).pos() < nxt <= old(self).toks().len()
                    && final(self).warns() == old(self).warns() + warns),
                Err(m) => (parse_while_spec(old(self).toks(), old(self).pos(), env_view(env@))
                    matches DeclOut::Fail(msg)
                    && m@ == msg),
            },
        decreases self.tokens@.len() - self.cur, 2int,
    {
        let ghost t0 = self.toks();
        let ghost c0 = self.pos();
        let ghost w0 = self.warns();
        let ghost ev0 = env_view(env@);
        self.advance();
        if !self.peek_is_lparen() {
            return Err(String::from_str("Missing open parenthesis in while loop"));
        }
        self.advance();
        let cond = match self.parse_expr(0, env) {
            Err(m) => {
                return Err(m);
            },
            Ok(x) => x,
        };
        if !self.peek_is_rparen() {
            return Err(String::from_str("While condition doesn't have a closing parenthesis"));
        }
        self.advance();
        if !self.peek_is_lcurly() {
            return Err(String::from_str("Missing left curly in while loop"));
        }
        self.advance();
        let mut env_body = env_clone(env);
        let body = match self.parse_statement(&mut env_body) {
            Err(m) => {
                return Err(m);
            },
            Ok(x) => x,
        };
        if !self.peek_is_rcurly() {
            return Err(String::from_str("Missing right curly in while loop"));
        }
        self.advance();
        proof {
            if let ExprOut::Parsed { e: condv, nxt: na, warns: wa } = parse_expr_spec(
                t0,
                c0 + 2,
                0u8,
                ev0,
            ) {
                assert(clamp_pos(na, c0 + 2, t0.len() as int) == na);
                if let StmtsOut::Parsed { stmts: bodyv, nxt: nb, env: eb, warns: wb } = parse_stmts_spec(
                    t0,
                    na + 2,
                    ev0,
                ) {
                    assert(clamp_pos(nb, na + 2, t0.len() as int) == nb);
                    assert((w0 + wa) + wb =~= w0 + (wa + wb));
                }
            }
        }
        Ok(ParseNode::While { cond, body })
    }

    fn parse_print(&mut self, env: &Vec<String>) -> (r: Result<ParseNode, String>)
        requires
            old(self).wf(),
            old(self).pos() < old(self).toks().len(),
        ensures
            final(self).wf(),
            final(self).toks() == old(self).toks(),
            match r {
                Ok(node) => (parse_print_spec(old(self).toks(), old(self).pos(), env_view(env@))
                    matches DeclOut::Parsed { stmt, nxt, env: e2, warns }
                    && stmt_view(node) == stmt
                    && final(self).pos() == nxt
                    && old(self).pos() < nxt <= old(self).toks().len()
                    && final(self).warns() == old(self).warns() + warns),
                Err(m) => (parse_print_spec(old(self).toks(), old(self).pos(), env_view(env@))
                    matches DeclOut::Fail(msg)
                    && m@ == msg),
            },
        decreases self.tokens@.len() - self.cur, 2int,
    {
        let ghost t0 = self.toks();
        let ghost c0 = self.pos();
        let ghost w0 = self.warns();
        let ghost ev0 = env_view(env@);
        self.advance();
        if !self.peek_is_lparen() {
            return Err(String::from_str("Left parenthesis missing in function call"));
        }
        self.advance();
        let e = match self.parse_expr(0, env) {
            Err(m) => {
                return Err(m);
            },
            Ok(x) => x,
        };
        if !self.peek_is_rparen() {
            return Err(String::from_str("Right parenthesis missing in function call"));
        }
        self.advance();
        proof {
            if let ExprOut::Parsed { e: ev_, nxt: na, warns: wa } = parse_expr_spec(
                t0,
                c0 + 2,
                0u8,
                ev0,
            ) {
                assert(clamp_pos(na, c0 + 2, t0.len() as int) == na);
            }
        }
        Ok(ParseNode::Print(e))
    }

    fn parse_elifs(&mut self, env: &Vec<String>) -> (r: Result<Vec<ElifArm>, String>)
        requires
            old(self).wf(),
        ensures
            final(self).wf(),
            final(self).toks() == old(self).toks(),
            match r {
                Ok(arms) => (parse_elifs_spec(old(self).toks(), old(self).pos(), env_view(env@))
                    matches ElifsOut::Parsed { elifs, nxt, warns }
                    && elifs_view_from(arms, 0) == elifs
                    && final(self).pos() == nxt
                    && old(self).pos() <= nxt <= old(self).toks().len()
                    && final(self).warns() == old(self).warns() + warns),
                Err(m) => (parse_elifs_spec(old(self).toks(), old(self).pos(), env_view(env@))
                    matches ElifsOut::Fail(msg)
                    && m@ == msg),
            },
        decreases self.tokens@.len() - self.cur, 3int,
    {
        let ghost t0 = self.toks();
        let ghost c0 = self.pos();
        let ghost w0 = self.warns();
        let ghost ev0 = env_view(env@);
        if !self.peek_is_elif() {
            let arms: Vec<ElifArm> = Vec::new();
            proof {
                assert(elifs_view_from(arms, 0) =~= Seq::<ElifArmV>::empty());
                assert(w0 + Seq::<WarnV>::empty() =~= w0);
            }
            return Ok(arms);
        }
        self.advance();
        if !self.peek_is_lparen() {
            return Err(String::from_str("Elif condition must start with parenthesis"));
        }
        self.advance();
        let cond = match self.parse_expr(0, env) {
            Err(m) => {
                return Err(m);
            },
            Ok(x) => x,
        };
        if !self.peek_is_rparen() {
            return Err(String::from_str("Elif condition not closed"));
        }
        self.advance();
        if !self.peek_is_lcurly() {
            return Err(String::from_str("Elif block must start with curly braces"));
        }
        self.advance();
        let mut env_body = env_clone(env);
        let body = match self.parse_statement(&mut env_body) {
            Err(m) => {
                return Err(m);
            },
            Ok(x) => x,
        };
        if !self.peek_is_rcurly() {
            return Err(String::from_str("Elif block not closed"));
        }
        self.advance();
        let arm = ElifArm { cond, body };
        let ghost arm0 = arm;
        let mut rest = self.parse_elifs(env)?;
        let ghost rest0 = rest;
        let mut arms: Vec<ElifArm> = Vec::new();
        arms.push(arm);
        arms.append(&mut rest);
        proof {
            assert(arms@ =~= seq![arm0] + rest0@);
            lemma_elifs_prepend(arms, arm0, rest0);
            if let ExprOut::Parsed { e: condv, nxt: na, warns: wa } = parse_expr_spec(
                t0,
                c0 + 2,
                0u8,
                ev0,
            ) {
                assert(clamp_pos(na, c0 + 2, t0.len() as int) == na);
                if let StmtsOut::Parsed { stmts: bodyv, nxt: nb, env: eb, warns: wb } = parse_stmts_spec(
                    t0,
                    na + 2,
                    ev0,
                ) {
                    assert(clamp_pos(nb, na + 2, t0.len() as int) == nb);
                    if let ElifsOut::Parsed { elifs: ev2, nxt: nc, warns: wc } = parse_elifs_spec(
                        t0,
                        nb + 1,
                        ev0,
                    ) {
                        assert(((w0 + wa) + wb) + wc =~= w0 + ((wa + wb) + wc));
                    }
                }
            }
        }
        Ok(arms)
    }

    #[verifier::rlimit(60)]
    fn parse_if(&mut self, env: &Vec<String>) -> (r: Result<ParseNode, String>)
        requires
            old(self).wf(),
            old(self).pos() < old(self).toks().len(),
        ensures
            final(self).wf(),
            final(self).toks() == old(self).toks(),
            match r {
                Ok(node) => (parse_if_spec(old(self).toks(), old(self).pos(), env_view(env@))
                    matches DeclOut::Parsed { stmt, nxt, env: e2, warns }
                    && stmt_view(node) == stmt
                    && final(self).pos() == nxt
                    && old(self).pos() < nxt <= old(self).toks().len()
                    && final(self).warns() == old(self).warns() + warns),
                Err(m) => (parse_if_spec(old(self).toks(), old(self).pos(), env_view(env@))
                    matches DeclOut::Fail(msg)
                    && m@ == msg),
            },
        decreases self.tokens@.len() - self.cur, 2int,
    {
        let ghost t0 = self.toks();
        let ghost c0 = self.pos();
        let ghost w0 = self.warns();
        let ghost ev0 = env_view(env@);
        self.advance();
        if !self.peek_is_lparen() {
            return Err(String::from_str("If condition must start with an open parenthesis"));
        }
        self.advance();
        let cond = match self.parse_expr(0, env) {
            Err(m) => {
                return Err(m);
            },
            Ok(x) => x,
        };
        if !self.peek_is_rparen() {
            return Err(String::from_str("If condition not closed"));
        }
        self.advance();
        if !self.peek_is_lcurly() {
            return Err(String::from_str("If condition must start with curly braces"));
        }
        self.advance();
        let mut env_body = env_clone(env);
        let body = match self.parse_statement(&mut env_body) {
            Err(m) => {
                return Err(m);
            },
            Ok(x) => x,
        };
        if !self.peek_is_rcurly() {
            return Err(String::from_str("If block not closed"));
        }
        self.advance();
        let elifs = match self.parse_elifs(env) {
            Err(m) => {
                return Err(m);
            },
            Ok(x) => x,
        };
        proof {
            if let ExprOut::Parsed { e: condv, nxt: na, warns: wa } = parse_expr_spec(
                t0,
                c0 + 2,
                0u8,
                ev0,
            ) {
                assert(clamp_pos(na, c0 + 2, t0.len() as int) == na);
                if let StmtsOut::Parsed { stmts: bodyv, nxt: nb, env: eb, warns: wb } = parse_stmts_spec(
                    t0,
                    na + 2,
                    ev0,
                ) {
                    assert(clamp_pos(nb, na + 2, t0.len() as int) == nb);
                    if let ElifsOut::Parsed { elifs: elv, nxt: nc, warns: wc } = parse_elifs_spec(
                        t0,
                        nb + 1,
                        ev0,
                    ) {
                        assert(clamp_pos(nc, nb + 1, t0.len() as int) == nc);
                    }
                }
            }
        }
        if self.peek_is_else() {
            self.advance();
            if !self.peek_is_lcurly() {
                return Err(String::from_str("Else block must start with curly braces"));
            }
            self.advance();
            let mut env_else = env_clone(env);
            let eb = match self.parse_statement(&mut env_else) {
                Err(m) => {
                    return Err(m);
                },
                Ok(x) => x,
            };
            if !self.peek_is_rcurly() {
                return Err(String::from_str("Else block not closed"));
            }
            self.advance();
            proof {
                if let ExprOut::Parsed { e: condv, nxt: na, warns: wa } = parse_expr_spec(
                    t0,
                    c0 + 2,
                    0u8,
                    ev0,
                ) {
                    if let StmtsOut::Parsed { stmts: bodyv, nxt: nb, env: eb_, warns: wb } = parse_stmts_spec(
                        t0,
                        na + 2,
                        ev0,
                    ) {
                        if let ElifsOut::Parsed { elifs: elv, nxt: nc, warns: wc } = parse_elifs_spec(
                            t0,
                            nb + 1,
                            ev0,
                        ) {
                            if let StmtsOut::Parsed { stmts: ebv, nxt: nd, env: ed, warns: wd } = parse_stmts_spec(
                                t0,
                                nc + 2,
                                ev0,
                            ) {
                                assert(clamp_pos(nd, nc + 2, t0.len() as int) == nd);
                                assert((((w0 + wa) + wb) + wc) + wd =~= w0 + (((wa + wb) + wc) + wd));
                            }
                        }
                    }
                }
            }
            Ok(ParseNode::If { cond, body, elifs, else_body: Some(eb) })
        } else {
            proof {
                if let ExprOut::Parsed { e: condv, nxt: na, warns: wa } = parse_expr_spec(
                    t0,
                    c0 + 2,
                    0u8,
                    ev0,
                ) {
                    if let StmtsOut::Parsed { stmts: bodyv, nxt: nb, env: eb_, warns: wb } = parse_stmts_spec(
                        t0,
                        na + 2,
                        ev0,
                    ) {
                        if let ElifsOut::Parsed { elifs: elv, nxt: nc, warns: wc } = parse_elifs_spec(
                            t0,
                            nb + 1,
                            ev0,
                        ) {
                            assert(((w0 + wa) + wb) + wc =~= w0 + ((wa + wb) + wc));
                        }
                    }
                }
            }
            Ok(ParseNode::If { cond, body, elifs, else_body: None })
        }
    }

    fn parse_decl(&mut self, env: &mut Vec<String>) -> (r: Result<ParseNode, String>)
        requires
            old(self).wf(),
        ensures
            final(self).wf(),
            final(self).toks() == old(self).toks(),
            match r {
                Ok(node) => (parse_decl_spec(old(self).toks(), old(self).pos(), env_view(old(env)@))
                    matches DeclOut::Parsed { stmt, nxt, env: e2, warns }
                    && stmt_view(node) == stmt
                    && final(self).pos() == nxt
                    && old(self).pos() < nxt <= old(self).toks().len()
                    && env_view(final(env)@) == e2
                    && final(self).warns() == old(self).warns() + warns),
                Err(m) => (parse_decl_spec(old(self).toks(), old(self).pos(), env_view(old(env)@))
                    matches DeclOut::Fail(msg)
                    && m@ == msg),
            },
        decreases self.tokens@.len() - self.cur, 3int,
    {
        if self.cur >= self.tokens.len() {
            return Err(String::from_str("Couldn't be parsed"));
        }
        match &self.tokens[self.cur].token {
            TokenType::Let => self.parse_let(env),
            TokenType::While => self.parse_while(env),
            TokenType::If => self.parse_if(env),
            TokenType::Print => self.parse_print(env),
            _ => Err(String::from_str("Invalid token in statement position")),
        }
    }

    fn parse_statement(&mut self, env: &mut Vec<String>) -> (r: Result<Vec<ParseNode>, String>)
        requires
            old(self).wf(),
        ensures
            final(self).wf(),
            final(self).toks() == old(self).toks(),
            match r {
                Ok(nodes) => (parse_stmts_spec(old(self).toks(), old(self).pos(), env_view(old(env)@))
                    matches StmtsOut::Parsed { stmts, nxt, env: e3, warns }
                    && stmts_view_from(nodes, 0) == stmts
                    && final(self).pos() == nxt
                    && old(self).pos() <= nxt <= old(self).toks().len()
                    && env_view(final(env)@) == e3
                    && final(self).warns() == old(self).warns() + warns),
                Err(m) => (parse_stmts_spec(old(self).toks(), old(self).pos(), env_view(old(env)@))
                    matches StmtsOut::Fail(msg)
                    && m@ == msg),
            },
        decreases self.tokens@.len() - self.cur, 4int,
    {
        let ghost t0 = self.toks();
        let ghost c0 = self.pos();
        let ghost w0 = self.warns();
        let ghost ev0 = env_view(env@);
        if self.cur >= self.tokens.len() || self.peek_is_rcurly() {
            let nodes: Vec<ParseNode> = Vec::new();
            proof {
                assert(stmts_view_from(nodes, 0) =~= Seq::<StmtV>::empty());
                assert(w0 + Seq::<WarnV>::empty() =~= w0);
            }
            return Ok(nodes);
        }
        let node = match self.parse_decl(env) {
            Err(m) => {
                return Err(m);
            },
            Ok(x) => x,
        };
        let ghost node0 = node;
        let mut rest = self.parse_statement(env)?;
        let ghost rest0 = rest;
        let mut nodes: Vec<ParseNode> = Vec::new();
        nodes.push(node);
        nodes.append(&mut rest);
        proof {
            assert(nodes@ =~= seq![node0] + rest0@);
            lemma_stmts_prepend(nodes, node0, rest0);
            if let DeclOut::Parsed { stmt, nxt: na, env: e2, warns: wa } = parse_decl_spec(
                t0,
                c0,
                ev0,
            ) {
                assert(clamp_pos(na, c0 + 1, t0.len() as int) == na);
                if let StmtsOut::Parsed { stmts, nxt: nb, env: e3, warns: wb } = parse_stmts_spec(
                    t0,
                    na,
                    e2,
                ) {
                    assert((w0 + wa) + wb =~= w0 + (wa + wb));
                }
            }
        }
        Ok(nodes)
    }

    /// Parses the whole token sequence into the program's statement list.
    /// On success the list is exactly the one `parse_spec` describes, and the
    /// used-before-declaration warnings land in `self.warnings`, in source
    /// order; on failure the message is exactly the one `parse_spec` gives,
    /// and no statement list is produced.
    pub fn parse(&mut self) -> (r: Result<Vec<ParseNode>, String>)
        requires
            old(self).wf(),
        ensures
            final(self).wf(),
            final(self).toks() == old(self).toks(),
            match r {
                Ok(nodes) => (parse_prog_spec(old(self).toks(), old(self).pos())
                    matches ProgOut::Parsed { stmts, warns }
                    && stmts_view(nodes) == stmts
                    && final(self).warns() == old(self).warns() + warns),
                Err(m) => (parse_prog_spec(old(self).toks(), old(self).pos())
                    matches ProgOut::Fail(msg)
                    && m@ == msg),
            },
    {
        let mut env: Vec<String> = Vec::new();
        proof {
            assert(env_view(env@) =~= Set::<Seq<char>>::empty());
        }
        match self.parse_statement(&mut env) {
            Err(m) => Err(m),
            Ok(nodes) => {
                if self.cur >= self.tokens.len() {
                    Ok(nodes)
                } else {
                    Err(String::from_str("Invalid parse"))
                }
            },
        }
    }
}

} // verus!
